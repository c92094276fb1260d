use dashu::base::RemEuclid;
use std::fmt::Write;
use vstd::prelude::*;
use vstd::string::StrSliceExecFns;

verus! {

// ---------------------------------------------------------------------------
// Arbitrary-precision signed integers, held as plain values: a sign and a
// little-endian byte magnitude. The mathematical value of a magnitude is
// `sum mag[i] * 256^i`; arithmetic on these values is done by dashu behind
// the trusted functions at the end of this file, and every contract here
// speaks of the mathematical value alone.
// ---------------------------------------------------------------------------
/// 256 to the given power.
pub open spec fn pow256(n: nat) -> int
    decreases n,
{
    if n == 0 {
        1
    } else {
        256 * pow256((n - 1) as nat)
    }
}

/// The value of a little-endian byte magnitude.
pub open spec fn mag_val(s: Seq<u8>) -> int
    decreases s.len(),
{
    if s.len() == 0 {
        0
    } else {
        s[0] + 256 * mag_val(s.subrange(1, s.len() as int))
    }
}

/// An arbitrary-precision signed integer in canonical sign-magnitude form.
#[derive(Debug, PartialEq, Eq)]
pub struct BigInt {
    pub negative: bool,
    pub mag: Vec<u8>,
}

impl BigInt {
    /// The mathematical value.
    pub open spec fn value(&self) -> int {
        if self.negative {
            -mag_val(self.mag@)
        } else {
            mag_val(self.mag@)
        }
    }

    /// Canonical form: no leading zero byte, and zero is never negative.
    pub open spec fn wf(&self) -> bool {
        &&& (self.mag@.len() > 0 ==> self.mag@.last() != 0)
        &&& (self.negative ==> self.mag@.len() > 0)
    }

    pub fn zero() -> (r: BigInt)
        ensures
            r.wf(),
            r.value() == 0,
    {
        BigInt { negative: false, mag: Vec::new() }
    }

    pub fn from_bool(b: bool) -> (r: BigInt)
        ensures
            r.wf(),
            r.value() == if b {
                1int
            } else {
                0int
            },
    {
        if b {
            let mut mag: Vec<u8> = Vec::new();
            mag.push(1);
            proof {
                assert(mag@.subrange(1, 1) =~= Seq::<u8>::empty());
                assert(mag_val(Seq::<u8>::empty()) == 0);
                assert(mag_val(mag@) == 1);
            }
            BigInt { negative: false, mag }
        } else {
            BigInt::zero()
        }
    }

    pub fn is_zero(&self) -> (r: bool)
        requires
            self.wf(),
        ensures
            r == (self.value() == 0),
    {
        proof {
            if self.mag@.len() > 0 {
                lemma_mag_val_lower(self.mag@);
                lemma_pow256_positive((self.mag@.len() - 1) as nat);
            }
        }
        self.mag.len() == 0
    }

    /// Exact negation: the sign flips, the magnitude stays.
    pub fn neg(&self) -> (r: BigInt)
        requires
            self.wf(),
        ensures
            r.wf(),
            r.value() == -self.value(),
    {
        let mag = self.mag.clone();
        proof {
            vstd::std_specs::vec::vec_clone_deep_view_proof::<u8, std::alloc::Global>(
                self.mag,
                mag,
            );
            assert(mag@ =~= self.mag@);
        }
        BigInt { negative: self.mag.len() > 0 && !self.negative, mag }
    }

    /// The value clamped into `0 ..= usize::MAX`, as a usize.
    pub fn to_usize_saturating(&self) -> (r: usize)
        requires
            self.wf(),
        ensures
            self.value() < 0 ==> r == 0,
            0 <= self.value() <= usize::MAX ==> r == self.value(),
            self.value() > usize::MAX ==> r == usize::MAX,
    {
        if self.negative {
            proof {
                lemma_mag_val_lower(self.mag@);
                lemma_pow256_positive((self.mag@.len() - 1) as nat);
            }
            return 0;
        }
        if self.mag.len() > 8 {
            proof {
                lemma_mag_val_lower(self.mag@);
                lemma_pow256_monotonic(8, (self.mag@.len() - 1) as nat);
                lemma_pow256_unfold_8();
            }
            return usize::MAX;
        }
        let n = self.mag.len();
        let mut acc: u64 = 0;
        let mut j: usize = n;
        proof {
            assert(self.mag@.subrange(n as int, n as int) =~= Seq::<u8>::empty());
        }
        while j > 0
            invariant
                j <= n <= 8,
                n == self.mag@.len(),
                acc == mag_val(self.mag@.subrange(j as int, n as int)),
                acc < pow256((n - j) as nat),
            decreases j,
        {
            j = j - 1;
            let b = self.mag[j];
            proof {
                let tail = self.mag@.subrange(j + 1, n as int);
                let whole = self.mag@.subrange(j as int, n as int);
                assert(whole.subrange(1, whole.len() as int) =~= tail);
                assert(whole[0] == self.mag@[j as int]);
                lemma_mag_val_nonneg(tail);
                lemma_pow256_monotonic((n - j - 1) as nat, 7);
                lemma_pow256_unfold_8();
            }
            acc = acc * 256 + (b as u64);
        }
        proof {
            assert(self.mag@.subrange(0, n as int) =~= self.mag@);
            lemma_pow256_monotonic((n - j) as nat, 8);
            lemma_pow256_unfold_8();
        }
        if acc > (usize::MAX as u64) {
            usize::MAX
        } else {
            acc as usize
        }
    }
}

impl Clone for BigInt {
    fn clone(&self) -> (r: Self)
        ensures
            r.negative == self.negative,
            r.mag@ == self.mag@,
    {
        let mag = self.mag.clone();
        proof {
            vstd::std_specs::vec::vec_clone_deep_view_proof::<u8, std::alloc::Global>(
                self.mag,
                mag,
            );
            assert(mag@ =~= self.mag@);
        }
        BigInt { negative: self.negative, mag }
    }
}

pub proof fn lemma_mag_val_nonneg(s: Seq<u8>)
    ensures
        mag_val(s) >= 0,
    decreases s.len(),
{
    if s.len() > 0 {
        lemma_mag_val_nonneg(s.subrange(1, s.len() as int));
    }
}

pub proof fn lemma_pow256_positive(n: nat)
    ensures
        pow256(n) >= 1,
    decreases n,
{
    if n > 0 {
        lemma_pow256_positive((n - 1) as nat);
    }
}

pub proof fn lemma_pow256_monotonic(a: nat, b: nat)
    requires
        a <= b,
    ensures
        pow256(a) <= pow256(b),
    decreases b,
{
    if a < b {
        lemma_pow256_monotonic(a, (b - 1) as nat);
        lemma_pow256_positive((b - 1) as nat);
    }
}

pub proof fn lemma_pow256_unfold_8()
    ensures
        pow256(8) == 0x1_0000_0000_0000_0000,
        pow256(7) == 0x100_0000_0000_0000,
{
    reveal_with_fuel(pow256, 9);
}

/// A magnitude whose top byte is not zero is at least `256^(len-1)`.
pub proof fn lemma_mag_val_lower(s: Seq<u8>)
    requires
        s.len() > 0,
        s.last() != 0,
    ensures
        mag_val(s) >= pow256((s.len() - 1) as nat),
    decreases s.len(),
{
    let rest = s.subrange(1, s.len() as int);
    if s.len() == 1 {
        assert(rest =~= Seq::<u8>::empty());
        assert(mag_val(rest) == 0);
    } else {
        assert(rest.last() == s.last());
        lemma_mag_val_lower(rest);
    }
}

// ---------------------------------------------------------------------------
// Digit strings: the decimal value of a literal, and the decimal text of a
// value. These give the trusted parse and display functions exact contracts.
// ---------------------------------------------------------------------------
pub open spec fn is_digit_char(c: char) -> bool {
    48 <= c as u32 <= 57
}

pub open spec fn all_digits(s: Seq<char>) -> bool {
    forall|i: int| 0 <= i < s.len() ==> is_digit_char(#[trigger] s[i])
}

/// The value of a non-empty decimal digit string.
pub open spec fn dec_val(s: Seq<char>) -> int
    decreases s.len(),
{
    if s.len() == 0 {
        0
    } else {
        dec_val(s.drop_last()) * 10 + (s.last() as u32 - 48)
    }
}

pub open spec fn dec_digit(d: int) -> char {
    if d == 0 {
        '0'
    } else if d == 1 {
        '1'
    } else if d == 2 {
        '2'
    } else if d == 3 {
        '3'
    } else if d == 4 {
        '4'
    } else if d == 5 {
        '5'
    } else if d == 6 {
        '6'
    } else if d == 7 {
        '7'
    } else if d == 8 {
        '8'
    } else {
        '9'
    }
}

/// The canonical decimal text of a non-negative value.
pub open spec fn nat_text(n: int) -> Seq<char>
    decreases n,
{
    if n < 10 {
        seq![dec_digit(n)]
    } else {
        nat_text(n / 10).push(dec_digit(n % 10))
    }
}

/// The canonical decimal text of a value, with a leading minus sign when it
/// is negative.
pub open spec fn int_text(v: int) -> Seq<char> {
    if v < 0 {
        seq!['-'] + nat_text(-v)
    } else {
        nat_text(v)
    }
}

/// The shape of a decimal literal: digits, optionally followed by a point
/// and more digits.
pub open spec fn is_float_text(s: Seq<char>) -> bool {
    ||| (s.len() >= 1 && all_digits(s))
    ||| (exists|k: int|
        0 < k < s.len() - 1 && s[k] == '.' && all_digits(s.subrange(0, k)) && all_digits(
            s.subrange(k + 1, s.len() as int),
        ))
}

// ---------------------------------------------------------------------------
// Arbitrary-precision decimals. The numeric content is opaque to
// verification: contracts never speak of a decimal's value, only of which
// decimal object an operation returned.
// ---------------------------------------------------------------------------
/// An arbitrary-precision decimal number, opaque to verification; the value
/// lives in the wrapped dashu float.
#[verifier::external_body]
#[derive(Debug)]
pub struct Decimal {
    inner: dashu::float::DBig,
}

/// Whether a decimal is finite. Every decimal the library hands out is: the
/// operations whose dashu kernels can leave the finite domain — division and
/// powers outright, and addition, subtraction, multiplication and division
/// by an integer through exponent-overflow saturation to an infinity —
/// answer with nothing instead, so an infinite decimal never leaves this
/// module, and the kernels that would abort on an infinite operand are only
/// ever called on finite ones.
pub uninterp spec fn dec_finite(d: Decimal) -> bool;

/// The decimal that dashu parses out of a literal text; a function of the
/// text alone.
pub uninterp spec fn dec_of_text(s: Seq<char>) -> Decimal;

/// The decimal standing for an integer value (the From conversion under this
/// module's working precision); a function of the value alone.
pub uninterp spec fn dec_of_int(v: int) -> Decimal;

/// What checked decimal addition returns: nothing when the sum's exponent
/// saturates past the representable range, the finite sum otherwise.
pub uninterp spec fn dec_add_of(a: Decimal, b: Decimal) -> Option<Decimal>;

/// What checked decimal subtraction returns, as for addition.
pub uninterp spec fn dec_sub_of(a: Decimal, b: Decimal) -> Option<Decimal>;

/// What checked decimal multiplication returns, as for addition.
pub uninterp spec fn dec_mul_of(a: Decimal, b: Decimal) -> Option<Decimal>;

/// What dashu's decimal negation returns.
pub uninterp spec fn dec_neg_of(a: Decimal) -> Decimal;

/// What checked decimal division returns: nothing for an indeterminate or
/// infinite quotient (a zero divisor), the finite quotient otherwise.
pub uninterp spec fn dec_div_of(a: Decimal, b: Decimal) -> Option<Decimal>;

/// What the checked Euclidean remainder of two decimals returns: nothing for
/// a zero divisor, the remainder otherwise.
pub uninterp spec fn dec_rem_of(a: Decimal, b: Decimal) -> Option<Decimal>;

/// What the checked decimal power returns: nothing when the power leaves the
/// real or finite domain, the finite power otherwise.
pub uninterp spec fn dec_pow_of(a: Decimal, b: Decimal) -> Option<Decimal>;

/// What dividing one integer value by another (non-zero) under this module's
/// working precision returns.
pub uninterp spec fn int_div_of(a: int, b: int) -> Decimal;

/// What checked division of a decimal by a non-zero integer value returns:
/// nothing when the quotient's exponent saturates, the finite quotient
/// otherwise.
pub uninterp spec fn dec_div_int_of(a: Decimal, b: int) -> Option<Decimal>;

/// What the Euclidean remainder of a decimal by a non-zero integer value
/// returns.
pub uninterp spec fn dec_rem_int_of(a: Decimal, b: int) -> Decimal;

/// How dashu's total order places two decimals.
pub uninterp spec fn dec_cmp_of(a: Decimal, b: Decimal) -> core::cmp::Ordering;

/// The display text of a decimal.
pub uninterp spec fn dec_text_of(a: Decimal) -> Seq<char>;

// ---------------------------------------------------------------------------
// Trusted functions over dashu. Each one converts between the plain
// representations above and dashu's types, makes one dashu call, and states
// no more than dashu's documentation shows.
// ---------------------------------------------------------------------------
/// Relies on IBig addition being exact; from_le_bytes/to_le_bytes carry the
/// magnitude bytes in and out, and to_le_bytes returns the minimal bytes.
#[verifier::external_body]
pub(crate) fn int_add(a: &BigInt, b: &BigInt) -> (r: BigInt)
    ensures
        r.wf(),
        r.value() == a.value() + b.value(),
{
    let x = dashu::integer::IBig::from_parts(
        if a.negative { dashu::base::Sign::Negative } else { dashu::base::Sign::Positive },
        dashu::integer::UBig::from_le_bytes(&a.mag),
    );
    let y = dashu::integer::IBig::from_parts(
        if b.negative { dashu::base::Sign::Negative } else { dashu::base::Sign::Positive },
        dashu::integer::UBig::from_le_bytes(&b.mag),
    );
    let (sign, mag) = (x + y).into_parts();
    BigInt { negative: matches!(sign, dashu::base::Sign::Negative), mag: mag.to_le_bytes().into_vec() }
}

/// Relies on IBig subtraction being exact.
#[verifier::external_body]
pub(crate) fn int_sub(a: &BigInt, b: &BigInt) -> (r: BigInt)
    ensures
        r.wf(),
        r.value() == a.value() - b.value(),
{
    let x = dashu::integer::IBig::from_parts(
        if a.negative { dashu::base::Sign::Negative } else { dashu::base::Sign::Positive },
        dashu::integer::UBig::from_le_bytes(&a.mag),
    );
    let y = dashu::integer::IBig::from_parts(
        if b.negative { dashu::base::Sign::Negative } else { dashu::base::Sign::Positive },
        dashu::integer::UBig::from_le_bytes(&b.mag),
    );
    let (sign, mag) = (x - y).into_parts();
    BigInt { negative: matches!(sign, dashu::base::Sign::Negative), mag: mag.to_le_bytes().into_vec() }
}

/// Relies on IBig multiplication being exact.
#[verifier::external_body]
pub(crate) fn int_mul(a: &BigInt, b: &BigInt) -> (r: BigInt)
    ensures
        r.wf(),
        r.value() == a.value() * b.value(),
{
    let x = dashu::integer::IBig::from_parts(
        if a.negative { dashu::base::Sign::Negative } else { dashu::base::Sign::Positive },
        dashu::integer::UBig::from_le_bytes(&a.mag),
    );
    let y = dashu::integer::IBig::from_parts(
        if b.negative { dashu::base::Sign::Negative } else { dashu::base::Sign::Positive },
        dashu::integer::UBig::from_le_bytes(&b.mag),
    );
    let (sign, mag) = (x * y).into_parts();
    BigInt { negative: matches!(sign, dashu::base::Sign::Negative), mag: mag.to_le_bytes().into_vec() }
}

/// Relies on dashu's RemEuclid for IBig: the remainder lies in
/// `[0, |divisor|)`, which is exactly the Euclidean remainder `%` denotes in
/// specifications here.
#[verifier::external_body]
pub(crate) fn int_rem_euclid(a: &BigInt, b: &BigInt) -> (r: BigInt)
    requires
        b.value() != 0,
    ensures
        r.wf(),
        r.value() == a.value() % b.value(),
{
    let x = dashu::integer::IBig::from_parts(
        if a.negative { dashu::base::Sign::Negative } else { dashu::base::Sign::Positive },
        dashu::integer::UBig::from_le_bytes(&a.mag),
    );
    let y = dashu::integer::IBig::from_parts(
        if b.negative { dashu::base::Sign::Negative } else { dashu::base::Sign::Positive },
        dashu::integer::UBig::from_le_bytes(&b.mag),
    );
    let mag: dashu::integer::UBig = x.rem_euclid(y);
    BigInt { negative: false, mag: mag.to_le_bytes().into_vec() }
}

/// Relies on IBig's total order agreeing with the integer values.
#[verifier::external_body]
pub(crate) fn int_cmp(a: &BigInt, b: &BigInt) -> (r: core::cmp::Ordering)
    ensures
        (r == core::cmp::Ordering::Less) == (a.value() < b.value()),
        (r == core::cmp::Ordering::Equal) == (a.value() == b.value()),
        (r == core::cmp::Ordering::Greater) == (a.value() > b.value()),
{
    let x = dashu::integer::IBig::from_parts(
        if a.negative { dashu::base::Sign::Negative } else { dashu::base::Sign::Positive },
        dashu::integer::UBig::from_le_bytes(&a.mag),
    );
    let y = dashu::integer::IBig::from_parts(
        if b.negative { dashu::base::Sign::Negative } else { dashu::base::Sign::Positive },
        dashu::integer::UBig::from_le_bytes(&b.mag),
    );
    x.cmp(&y)
}

/// Relies on IBig's FromStr at radix 10: a non-empty all-digit string parses
/// to its decimal value.
#[verifier::external_body]
pub(crate) fn int_parse(s: &str) -> (r: BigInt)
    requires
        s@.len() >= 1,
        all_digits(s@),
    ensures
        r.wf(),
        r.value() == dec_val(s@),
{
    let parsed: dashu::integer::IBig = match s.parse() {
        Ok(v) => v,
        Err(_) => dashu::integer::IBig::ZERO,
    };
    let (sign, mag) = parsed.into_parts();
    BigInt { negative: matches!(sign, dashu::base::Sign::Negative), mag: mag.to_le_bytes().into_vec() }
}

/// Relies on IBig's Display printing the canonical decimal text, a minus
/// sign first for negative values.
#[verifier::external_body]
pub(crate) fn int_to_text(a: &BigInt) -> (r: String)
    ensures
        r@ == int_text(a.value()),
{
    let x = dashu::integer::IBig::from_parts(
        if a.negative { dashu::base::Sign::Negative } else { dashu::base::Sign::Positive },
        dashu::integer::UBig::from_le_bytes(&a.mag),
    );
    let mut out = String::new();
    let _ = write!(out, "{}", x);
    out
}

/// Relies on DBig's From<IBig> (an exact conversion); the precision of the
/// resulting context is raised to at least 48 significant digits so that
/// later rounded operations (division, powers) work at that precision. The
/// result is a function of the integer value alone, and finite.
#[verifier::external_body]
pub(crate) fn int_to_decimal(a: &BigInt) -> (r: Decimal)
    ensures
        r == dec_of_int(a.value()),
        dec_finite(r),
{
    let x = dashu::integer::IBig::from_parts(
        if a.negative { dashu::base::Sign::Negative } else { dashu::base::Sign::Positive },
        dashu::integer::UBig::from_le_bytes(&a.mag),
    );
    let d = dashu::float::DBig::from(x);
    let p = if d.precision() < 48 { 48 } else { d.precision() };
    Decimal { inner: d.with_precision(p).value() }
}

/// Relies on DBig's FromStr: a decimal literal (digits, an optional point)
/// parses to a finite decimal determined by the text alone.
#[verifier::external_body]
pub(crate) fn dec_parse(s: &str) -> (r: Decimal)
    requires
        is_float_text(s@),
    ensures
        r == dec_of_text(s@),
        dec_finite(r),
{
    let parsed: dashu::float::DBig = match s.parse() {
        Ok(v) => v,
        Err(_) => dashu::float::DBig::ZERO,
    };
    Decimal { inner: parsed }
}

/// Relies on DBig's Clone returning an equal decimal.
#[verifier::external_body]
pub(crate) fn dec_clone(a: &Decimal) -> (r: Decimal)
    ensures
        r == *a,
{
    Decimal { inner: a.inner.clone() }
}

/// Relies on DBig addition, total on finite operands; an exponent overflow
/// saturates to an infinity (detected with Repr::is_infinite) and is
/// answered with nothing, so the sum handed out is finite.
#[verifier::external_body]
pub(crate) fn dec_add(a: &Decimal, b: &Decimal) -> (r: Option<Decimal>)
    requires
        dec_finite(*a),
        dec_finite(*b),
    ensures
        r == dec_add_of(*a, *b),
        r matches Some(v) ==> dec_finite(v),
{
    let q = &a.inner + &b.inner;
    if q.repr().is_infinite() {
        None
    } else {
        Some(Decimal { inner: q })
    }
}

/// Relies on DBig subtraction, checked as for addition.
#[verifier::external_body]
pub(crate) fn dec_sub(a: &Decimal, b: &Decimal) -> (r: Option<Decimal>)
    requires
        dec_finite(*a),
        dec_finite(*b),
    ensures
        r == dec_sub_of(*a, *b),
        r matches Some(v) ==> dec_finite(v),
{
    let q = &a.inner - &b.inner;
    if q.repr().is_infinite() {
        None
    } else {
        Some(Decimal { inner: q })
    }
}

/// Relies on DBig multiplication, checked as for addition.
#[verifier::external_body]
pub(crate) fn dec_mul(a: &Decimal, b: &Decimal) -> (r: Option<Decimal>)
    requires
        dec_finite(*a),
        dec_finite(*b),
    ensures
        r == dec_mul_of(*a, *b),
        r matches Some(v) ==> dec_finite(v),
{
    let q = &a.inner * &b.inner;
    if q.repr().is_infinite() {
        None
    } else {
        Some(Decimal { inner: q })
    }
}

/// Relies on DBig negation: a sign flip, total and finite on a finite
/// operand.
#[verifier::external_body]
pub(crate) fn dec_neg(a: &Decimal) -> (r: Decimal)
    requires
        dec_finite(*a),
    ensures
        r == dec_neg_of(*a),
        dec_finite(r),
{
    Decimal { inner: -(a.inner.clone()) }
}

/// Relies on Context::div, dashu's checked division: an indeterminate
/// quotient (0 / 0) comes back as an error, and an infinite one (a zero
/// divisor under a non-zero dividend) is detected with Repr::is_infinite;
/// both are answered with nothing, so the quotient handed out is finite.
#[verifier::external_body]
pub(crate) fn dec_div(a: &Decimal, b: &Decimal) -> (r: Option<Decimal>)
    requires
        dec_finite(*a),
        dec_finite(*b),
    ensures
        r == dec_div_of(*a, *b),
        r matches Some(v) ==> dec_finite(v),
{
    let ctx = dashu::float::Context::max(a.inner.context(), b.inner.context());
    match ctx.div(a.inner.repr(), b.inner.repr()) {
        Ok(v) => {
            let q = v.value();
            if q.repr().is_infinite() {
                None
            } else {
                Some(Decimal { inner: q })
            }
        },
        Err(_) => None,
    }
}

/// Relies on dashu's RemEuclid for DBig, which requires a non-zero divisor
/// (dashu would abort on zero, so that case is answered with nothing before
/// the call); on finite operands the remainder is finite.
#[verifier::external_body]
pub(crate) fn dec_rem_euclid(a: &Decimal, b: &Decimal) -> (r: Option<Decimal>)
    requires
        dec_finite(*a),
        dec_finite(*b),
    ensures
        r == dec_rem_of(*a, *b),
        r matches Some(v) ==> dec_finite(v),
{
    if b.inner == dashu::float::DBig::ZERO {
        return None;
    }
    Some(Decimal { inner: a.inner.clone().rem_euclid(b.inner.clone()) })
}

/// Relies on Context::powf, dashu's checked power: a domain error (a
/// negative base under a fractional exponent) or an overflow comes back as
/// an error, and an infinite result (a zero base under a negative exponent)
/// is detected with Repr::is_infinite; both are answered with nothing, so
/// the power handed out is finite.
#[verifier::external_body]
pub(crate) fn dec_powf(a: &Decimal, b: &Decimal) -> (r: Option<Decimal>)
    requires
        dec_finite(*a),
        dec_finite(*b),
    ensures
        r == dec_pow_of(*a, *b),
        r matches Some(v) ==> dec_finite(v),
{
    let ctx = dashu::float::Context::max(a.inner.context(), b.inner.context());
    match ctx.powf(a.inner.repr(), b.inner.repr(), None) {
        Ok(v) => {
            let q = v.value();
            if q.repr().is_infinite() {
                None
            } else {
                Some(Decimal { inner: q })
            }
        },
        Err(_) => None,
    }
}

/// Relies on DBig division of an integer dividend by a non-zero integer
/// divisor, which is total and finite: both are converted as int_to_decimal
/// does, so the result is a function of the two values.
#[verifier::external_body]
pub(crate) fn int_div_dec(a: &BigInt, b: &BigInt) -> (r: Decimal)
    requires
        b.value() != 0,
    ensures
        r == int_div_of(a.value(), b.value()),
        dec_finite(r),
{
    let da = int_to_decimal(a);
    let db = int_to_decimal(b);
    Decimal { inner: &da.inner / &db.inner }
}

/// Relies on DBig division by a non-zero integer divisor, checked as for
/// addition: a saturated quotient is answered with nothing.
#[verifier::external_body]
pub(crate) fn dec_div_int(a: &Decimal, b: &BigInt) -> (r: Option<Decimal>)
    requires
        dec_finite(*a),
        b.value() != 0,
    ensures
        r == dec_div_int_of(*a, b.value()),
        r matches Some(v) ==> dec_finite(v),
{
    let db = int_to_decimal(b);
    let q = &a.inner / &db.inner;
    if q.repr().is_infinite() {
        None
    } else {
        Some(Decimal { inner: q })
    }
}

/// Relies on dashu's RemEuclid for DBig with a non-zero integer divisor,
/// total and finite on a finite dividend.
#[verifier::external_body]
pub(crate) fn dec_rem_int(a: &Decimal, b: &BigInt) -> (r: Decimal)
    requires
        dec_finite(*a),
        b.value() != 0,
    ensures
        r == dec_rem_int_of(*a, b.value()),
        dec_finite(r),
{
    let db = int_to_decimal(b);
    Decimal { inner: a.inner.clone().rem_euclid(db.inner) }
}

/// Relies on DBig's total order (no NaN exists among these decimals).
#[verifier::external_body]
pub(crate) fn dec_cmp(a: &Decimal, b: &Decimal) -> (r: core::cmp::Ordering)
    ensures
        r == dec_cmp_of(*a, *b),
{
    a.inner.cmp(&b.inner)
}

/// Relies on DBig's Display.
#[verifier::external_body]
pub(crate) fn dec_to_text(a: &Decimal) -> (r: String)
    ensures
        r@ == dec_text_of(*a),
{
    let mut out = String::new();
    let _ = write!(out, "{}", a.inner);
    out
}


/// Whether every character of the text is a decimal digit.
pub fn text_all_digits(s: &str) -> (r: bool)
    ensures
        r == all_digits(s@),
{
    let n = s.unicode_len();
    let mut i: usize = 0;
    while i < n
        invariant
            i <= n,
            n == s@.len(),
            forall|k: int| 0 <= k < i ==> is_digit_char(#[trigger] s@[k]),
        decreases n - i,
    {
        let c = s.get_char(i);
        if !((c as u32) >= 48 && (c as u32) <= 57) {
            return false;
        }
        i = i + 1;
    }
    true
}

/// Whether the text has the shape of a decimal literal: digits, optionally
/// followed by a point and more digits.
pub fn text_is_float(s: &str) -> (r: bool)
    ensures
        r == is_float_text(s@),
{
    let n = s.unicode_len();
    if n == 0 {
        return false;
    }
    // find the first point
    let mut i: usize = 0;
    let mut dot: usize = n;
    let mut found = false;
    while i < n
        invariant
            i <= n,
            n == s@.len(),
            !found ==> dot == n && forall|k: int| 0 <= k < i ==> s@[k] != '.',
            found ==> dot < i && s@[dot as int] == '.' && forall|k: int|
                0 <= k < dot ==> s@[k] != '.',
        decreases n - i,
    {
        let c = s.get_char(i);
        if !found && (c as u32) == 46 {
            dot = i;
            found = true;
        }
        i = i + 1;
    }
    if !found {
        // no point anywhere: a plain digit string or nothing
        let r = text_all_digits(s);
        proof {
            if !r {
                assert forall|k: int| !(0 < k < s@.len() - 1 && s@[k] == '.' && all_digits(
                    s@.subrange(0, k),
                ) && all_digits(s@.subrange(k + 1, s@.len() as int))) by {
                    if 0 <= k < s@.len() {
                        assert(s@[k] != '.');
                    }
                }
            }
        }
        return r;
    }
    proof {
        assert(s@[dot as int] == '.');
        assert(!is_digit_char(s@[dot as int]));
        assert(!all_digits(s@));
    }
    if dot == 0 || dot + 1 >= n {
        proof {
            assert forall|k: int| !(0 < k < s@.len() - 1 && s@[k] == '.' && all_digits(
                s@.subrange(0, k),
            ) && all_digits(s@.subrange(k + 1, s@.len() as int))) by {
                if 0 < k < s@.len() - 1 && s@[k] == '.' {
                    assert(k != dot);
                    if k < dot {
                        assert(s@[k] != '.');
                    } else {
                        assert(s@.subrange(0, k)[dot as int] == s@[dot as int]);
                        assert(!all_digits(s@.subrange(0, k)));
                    }
                }
            }
        }
        return false;
    }
    // digits before the point
    let mut a: usize = 0;
    while a < dot
        invariant
            a <= dot,
            0 < dot,
            dot + 1 < n,
            dot < n,
            n == s@.len(),
            s@[dot as int] == '.',
            forall|k: int| 0 <= k < dot ==> s@[k] != '.',
            forall|k: int| 0 <= k < a ==> is_digit_char(#[trigger] s@[k]),
        decreases dot - a,
    {
        let c = s.get_char(a);
        if !((c as u32) >= 48 && (c as u32) <= 57) {
            proof {
                lemma_float_text_unique_dot(s@, dot as int, a as int, true);
            }
            return false;
        }
        a = a + 1;
    }
    // digits after the point
    let mut b: usize = dot + 1;
    while b < n
        invariant
            dot + 1 <= b <= n,
            0 < dot,
            dot + 1 < n,
            dot < n,
            n == s@.len(),
            s@[dot as int] == '.',
            forall|k: int| 0 <= k < dot ==> s@[k] != '.',
            forall|k: int| 0 <= k < dot ==> is_digit_char(#[trigger] s@[k]),
            forall|k: int| dot < k < b ==> is_digit_char(#[trigger] s@[k]),
        decreases n - b,
    {
        let c = s.get_char(b);
        if !((c as u32) >= 48 && (c as u32) <= 57) {
            proof {
                lemma_float_text_unique_dot(s@, dot as int, b as int, false);
            }
            return false;
        }
        b = b + 1;
    }
    proof {
        assert(all_digits(s@.subrange(0, dot as int))) by {
            assert forall|k: int| 0 <= k < dot implies is_digit_char(
                #[trigger] s@.subrange(0, dot as int)[k],
            ) by {
                assert(s@.subrange(0, dot as int)[k] == s@[k]);
            }
        }
        assert(all_digits(s@.subrange(dot + 1, s@.len() as int))) by {
            assert forall|k: int|
                0 <= k < s@.len() - dot - 1 implies is_digit_char(
                #[trigger] s@.subrange(dot + 1, s@.len() as int)[k],
            ) by {
                assert(s@.subrange(dot + 1, s@.len() as int)[k] == s@[dot + 1 + k]);
            }
        }
        assert(0 < dot < s@.len() - 1);
    }
    true
}

/// When the text holds a point at `dot` (the first one) and some position
/// `bad` on the given side of it is neither a digit nor that point, the text
/// is not a decimal literal.
proof fn lemma_float_text_unique_dot(s: Seq<char>, dot: int, bad: int, before: bool)
    requires
        0 < dot < s.len() - 1,
        s[dot] == '.',
        forall|k: int| 0 <= k < dot ==> s[k] != '.',
        0 <= bad < s.len(),
        bad != dot,
        before ==> bad < dot,
        !before ==> bad > dot,
        !is_digit_char(s[bad]),
        s[bad] != '.' || !before,
    ensures
        !is_float_text(s),
{
    assert(!is_digit_char('.'));
    assert(!all_digits(s));
    assert forall|k: int| !(0 < k < s.len() - 1 && s[k] == '.' && all_digits(s.subrange(0, k))
        && all_digits(s.subrange(k + 1, s.len() as int))) by {
        if 0 < k < s.len() - 1 && s[k] == '.' {
            if k < dot {
                assert(s[k] != '.');
            } else if k == dot {
                if before {
                    assert(s.subrange(0, k)[bad] == s[bad]);
                    assert(!all_digits(s.subrange(0, k)));
                } else {
                    assert(s.subrange(k + 1, s.len() as int)[bad - k - 1] == s[bad]);
                    assert(!all_digits(s.subrange(k + 1, s.len() as int)));
                }
            } else {
                assert(s.subrange(0, k)[dot] == s[dot]);
                assert(!is_digit_char(s.subrange(0, k)[dot]));
                assert(!all_digits(s.subrange(0, k)));
            }
        }
    }
}

/// The law of the Euclidean remainder: for every dividend and every non-zero
/// divisor, the remainder `%` denotes (and [`int_rem_euclid`] returns) lies
/// in `[0, |divisor|)`, whatever the operands' signs.
pub proof fn lemma_euclid_mod_range(n: int, d: int)
    requires
        d != 0,
    ensures
        0 <= n % d,
        n % d < if d < 0 {
            -d
        } else {
            d
        },
{
}

} // verus!
