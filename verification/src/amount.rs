//! Fixed-point currency amounts.
//!
//! The wallet protocol carries amounts as decimal coin values with at most
//! eight fractional digits.  This crate stores every amount as an unsigned
//! count of the smallest currency unit (`10^-8` of a coin), so all
//! arithmetic is exact integer arithmetic.  This module parses the decimal
//! text of a wallet response into that unit and formats such a count back
//! into decimal text for a request body.

use vstd::prelude::*;
use vstd::string::StrSliceExecFns;

verus! {

/// Smallest currency units per whole coin.
pub const UNITS_PER_COIN: u64 = 100_000_000;

/// Whether `c` is a decimal digit.
pub open spec fn is_digit(c: char) -> bool {
    48 <= c as u32 <= 57
}

/// The numeric value of a digit character.
pub open spec fn digit_val(c: char) -> int {
    c as u32 - 48
}

/// Whether every character of `s` is a decimal digit.
pub open spec fn all_digits(s: Seq<char>) -> bool {
    forall|i: int| 0 <= i < s.len() ==> is_digit(s[i])
}

/// The value of a digit string read in base ten.
pub open spec fn digits_val(s: Seq<char>) -> nat
    decreases s.len(),
{
    if s.len() == 0 {
        0
    } else {
        digits_val(s.drop_last()) * 10 + (digit_val(s.last()) as nat)
    }
}

/// Ten to the `k`.
pub open spec fn pow10(k: nat) -> nat
    decreases k,
{
    if k == 0 {
        1
    } else {
        10 * pow10((k - 1) as nat)
    }
}

/// The digit character for a value below ten.
pub open spec fn char_of_digit(d: int) -> char {
    ((d + 48) as u8) as char
}

/// The decimal text of `n`: no sign, no leading zero except on zero itself.
pub open spec fn dec_str(n: nat) -> Seq<char>
    decreases n,
{
    if n < 10 {
        seq![char_of_digit(n as int)]
    } else {
        dec_str(n / 10) + seq![char_of_digit((n % 10) as int)]
    }
}

/// The index of the first `'.'` in `s`, or `s.len()` if there is none.
pub open spec fn dot_pos(s: Seq<char>) -> int
    decreases s.len(),
{
    if s.len() == 0 {
        0
    } else if s[0] == '.' {
        0
    } else {
        1 + dot_pos(s.drop_first())
    }
}

pub proof fn lemma_dot_pos(s: Seq<char>)
    ensures
        0 <= dot_pos(s) <= s.len(),
        dot_pos(s) < s.len() ==> s[dot_pos(s)] == '.',
        forall|j: int| 0 <= j < dot_pos(s) ==> s[j] != '.',
    decreases s.len(),
{
    if s.len() == 0 {
    } else if s[0] == '.' {
    } else {
        lemma_dot_pos(s.drop_first());
        assert forall|j: int| 0 <= j < dot_pos(s) implies s[j] != '.' by {
            if j > 0 {
                assert(s.drop_first()[j - 1] != '.');
                assert(s[j] == s.drop_first()[j - 1]);
            }
        }
    }
}

pub proof fn lemma_digits_val_bound(s: Seq<char>)
    requires
        all_digits(s),
    ensures
        digits_val(s) < pow10(s.len() as nat),
    decreases s.len(),
{
    if s.len() == 0 {
    } else {
        lemma_digits_val_bound(s.drop_last());
    }
}

/// A digit string is worth at least any of its prefixes.
pub proof fn lemma_digits_val_prefix_le(s: Seq<char>, i: int)
    requires
        0 <= i <= s.len(),
    ensures
        digits_val(s.take(i)) <= digits_val(s),
    decreases s.len() - i,
{
    if i < s.len() {
        lemma_digits_val_prefix_le(s, i + 1);
        assert(s.take(i + 1).drop_last() =~= s.take(i));
        assert(digits_val(s.take(i + 1)) == digits_val(s.take(i)) * 10 + (digit_val(s.take(
            i + 1,
        ).last()) as nat));
    } else {
        assert(s.take(i) =~= s);
    }
}

/// `k` zero digits.
pub open spec fn zeros(k: nat) -> Seq<char> {
    Seq::new(k, |i: int| '0')
}

/// Appending `k` zero digits multiplies the value by `10^k`.
pub proof fn lemma_digits_val_zeros(s: Seq<char>, k: nat)
    ensures
        digits_val(s + zeros(k)) == digits_val(s) * pow10(k),
    decreases k,
{
    let z = zeros(k);
    if k == 0 {
        assert(s + z =~= s);
        assert(pow10(0) == 1);
        assert(digits_val(s + z) == digits_val(s) * pow10(k));
    } else {
        let z1 = zeros((k - 1) as nat);
        lemma_digits_val_zeros(s, (k - 1) as nat);
        assert((s + z).drop_last() =~= s + z1);
        assert((s + z).last() == '0');
        assert(digit_val('0') == 0);
        assert(digits_val(s + z) == digits_val((s + z).drop_last()) * 10 + (digit_val(
            (s + z).last(),
        ) as nat));
        assert(digits_val(s + z) == digits_val(s + z1) * 10);
        assert(digits_val(s + z1) == digits_val(s) * pow10((k - 1) as nat));
        assert(digits_val(s) * pow10((k - 1) as nat) * 10 == digits_val(s) * pow10(k))
            by (nonlinear_arith)
            requires pow10(k) == 10 * pow10((k - 1) as nat),
        ;
    }
}

pub proof fn lemma_pow10_pos(k: nat)
    ensures
        pow10(k) >= 1,
    decreases k,
{
    if k > 0 {
        lemma_pow10_pos((k - 1) as nat);
    }
}

pub proof fn lemma_pow10_mono(a: nat, b: nat)
    requires
        a <= b,
    ensures
        pow10(a) <= pow10(b),
    decreases b,
{
    if a < b {
        lemma_pow10_mono(a, (b - 1) as nat);
        lemma_pow10_pos((b - 1) as nat);
    }
}

pub proof fn lemma_pow10_adds(a: nat, b: nat)
    ensures
        pow10(a) * pow10(b) == pow10(a + b),
    decreases a,
{
    if a == 0 {
        assert(pow10(0) == 1);
    } else {
        lemma_pow10_adds((a - 1) as nat, b);
        assert(10 * pow10((a - 1) as nat) * pow10(b) == 10 * (pow10((a - 1) as nat) * pow10(
            b,
        ))) by (nonlinear_arith);
    }
}

pub proof fn lemma_pow10_values()
    ensures
        pow10(0) == 1,
        pow10(1) == 10,
        pow10(2) == 100,
        pow10(3) == 1000,
        pow10(4) == 10000,
        pow10(5) == 100000,
        pow10(6) == 1000000,
        pow10(7) == 10000000,
        pow10(8) == 100000000,
{
    assert(pow10(0) == 1);
    assert(pow10(1) == 10);
    assert(pow10(2) == 100);
    assert(pow10(3) == 1000);
    assert(pow10(4) == 10000);
    assert(pow10(5) == 100000);
    assert(pow10(6) == 1000000);
    assert(pow10(7) == 10000000);
    assert(pow10(8) == 100000000);
}

/// `Some(v as u64)` when `v` fits, `None` otherwise.
pub open spec fn checked_u64(v: nat) -> Option<u64> {
    if v > u64::MAX {
        None
    } else {
        Some(v as u64)
    }
}

/// The first at most eight fractional digits, right-padded with zeros to
/// exactly eight: the digit string worth the fraction in smallest units.
pub open spec fn frac8(fp: Seq<char>) -> Seq<char> {
    if fp.len() >= 8 {
        fp.take(8)
    } else {
        fp + zeros((8 - fp.len()) as nat)
    }
}

/// Any fractional digit beyond the eighth place must be zero, or the text
/// does not denote a whole number of smallest units.
pub open spec fn frac_tail_zero(fp: Seq<char>) -> bool {
    forall|j: int| 8 <= j < fp.len() ==> fp[j] == '0'
}

/// The count of smallest units that the decimal text `s` denotes, if it is
/// well-formed: digits, optionally followed by a dot and further digits,
/// with a value that fits in `u64` and no precision below the eighth place.
pub open spec fn parse_amount_spec(s: Seq<char>) -> Option<u64> {
    let p = dot_pos(s);
    if p == s.len() {
        if s.len() > 0 && all_digits(s) {
            checked_u64(digits_val(s) * (UNITS_PER_COIN as nat))
        } else {
            None
        }
    } else {
        let ip = s.take(p);
        let fp = s.skip(p + 1);
        if ip.len() > 0 && fp.len() > 0 && all_digits(ip) && all_digits(fp) && frac_tail_zero(fp) {
            checked_u64(digits_val(ip) * (UNITS_PER_COIN as nat) + digits_val(frac8(fp)))
        } else {
            None
        }
    }
}

/// The value of a plain decimal integer, if `s` is one and it fits in `u64`.
pub open spec fn parse_index_spec(s: Seq<char>) -> Option<u64> {
    if s.len() > 0 && all_digits(s) {
        checked_u64(digits_val(s))
    } else {
        None
    }
}

/// What one left-to-right pass over a digit range can report.
enum DigitScan {
    /// Every character was a digit and the value fits in `u64`.
    Value(u64),
    /// Some character was not a digit.
    NonDigit,
    /// The scanned prefix alone already exceeds `u64::MAX`.
    TooBig,
}

fn scan_digits(s: &str, from: usize, to: usize) -> (r: DigitScan)
    requires
        from <= to <= s@.len(),
    ensures
        match r {
            DigitScan::Value(v) => all_digits(s@.subrange(from as int, to as int)) && v
                == digits_val(s@.subrange(from as int, to as int)),
            DigitScan::NonDigit => !all_digits(s@.subrange(from as int, to as int)),
            DigitScan::TooBig => all_digits(s@.subrange(from as int, to as int))
                ==> digits_val(s@.subrange(from as int, to as int)) > u64::MAX,
        },
{
    let ghost sub = s@.subrange(from as int, to as int);
    let mut acc: u64 = 0;
    let mut i: usize = from;
    while i < to
        invariant
            from <= i <= to <= s@.len(),
            sub == s@.subrange(from as int, to as int),
            all_digits(s@.subrange(from as int, i as int)),
            acc == digits_val(s@.subrange(from as int, i as int)),
        decreases to - i,
    {
        let c = s.get_char(i);
        let v = c as u32;
        proof {
            assert(s@.subrange(from as int, i as int + 1).drop_last() =~= s@.subrange(
                from as int,
                i as int,
            ));
            assert(s@.subrange(from as int, i as int + 1).last() == s@[i as int]);
        }
        if v < 48 || v > 57 {
            proof {
                assert(sub[i - from] == s@[i as int]);
                assert(!is_digit(sub[i - from]));
            }
            return DigitScan::NonDigit;
        }
        let d = (v - 48) as u64;
        proof {
            assert(digit_val(s@[i as int]) == d as int);
        }
        let next = match acc.checked_mul(10) {
            Some(m) => m.checked_add(d),
            None => None,
        };
        match next {
            Some(a2) => {
                acc = a2;
            },
            None => {
                proof {
                    assert(digits_val(s@.subrange(from as int, i as int + 1)) > u64::MAX);
                    if all_digits(sub) {
                        lemma_digits_val_prefix_le(sub, i + 1 - from);
                        assert(sub.take(i + 1 - from) =~= s@.subrange(from as int, i as int + 1));
                    }
                }
                return DigitScan::TooBig;
            },
        }
        i += 1;
    }
    proof {
        assert(s@.subrange(from as int, i as int) =~= sub);
    }
    DigitScan::Value(acc)
}

/// The index of the first `'.'` in `s`, or its length if there is none.
fn find_dot(s: &str) -> (p: usize)
    ensures
        p == dot_pos(s@),
{
    proof {
        lemma_dot_pos(s@);
    }
    let n = s.unicode_len();
    let mut p: usize = 0;
    while p < n
        invariant
            p <= n,
            n == s@.len(),
            forall|j: int| 0 <= j < p ==> s@[j] != '.',
        decreases n - p,
    {
        if s.get_char(p) == '.' {
            proof {
                lemma_dot_pos(s@);
            }
            return p;
        }
        p += 1;
    }
    p
}

/// Parses the decimal coin text of a wallet amount into smallest units.
#[verifier::loop_isolation(false)]
pub fn parse_amount(s: &str) -> (r: Option<u64>)
    ensures
        r == parse_amount_spec(s@),
{
    let n = s.unicode_len();
    let p = find_dot(s);
    proof {
        lemma_dot_pos(s@);
    }
    if p == n {
        if n == 0 {
            return None;
        }
        proof {
            assert(s@.subrange(0, n as int) =~= s@);
        }
        match scan_digits(s, 0, n) {
            DigitScan::Value(v) => v.checked_mul(UNITS_PER_COIN),
            DigitScan::NonDigit => None,
            DigitScan::TooBig => {
                proof {
                    if all_digits(s@) {
                        assert(digits_val(s@) * (UNITS_PER_COIN as nat) >= digits_val(s@))
                            by (nonlinear_arith)
                            requires digits_val(s@) >= 0,
                        ;
                    }
                }
                None
            },
        }
    } else {
        let ghost ip = s@.take(p as int);
        let ghost fp = s@.skip(p as int + 1);
        if p == 0 {
            return None;
        }
        if p + 1 == n {
            return None;
        }
        proof {
            assert(s@.subrange(0, p as int) =~= ip);
        }
        match scan_digits(s, 0, p) {
            DigitScan::NonDigit => None,
            DigitScan::TooBig => {
                proof {
                    if all_digits(ip) {
                        assert(digits_val(ip) * (UNITS_PER_COIN as nat) + digits_val(frac8(fp))
                            >= digits_val(ip))
                            by (nonlinear_arith)
                            requires digits_val(ip) >= 0 && digits_val(frac8(fp)) >= 0,
                        ;
                    }
                }
                None
            },
            DigitScan::Value(ival) => {
                let fstart = p + 1;
                let flen = n - fstart;
                let k: usize = if flen >= 8 {
                    8
                } else {
                    flen
                };
                let ghost fsub = s@.subrange(fstart as int, (fstart + k) as int);
                proof {
                    assert(fsub =~= fp.take(k as int));
                }
                match scan_digits(s, fstart, fstart + k) {
                    DigitScan::NonDigit => {
                        proof {
                            assert(!all_digits(fp)) by {
                                if all_digits(fp) {
                                    assert forall|t: int| 0 <= t < fsub.len() implies is_digit(
                                        fsub[t],
                                    ) by {
                                        assert(fsub[t] == fp[t]);
                                    }
                                }
                            }
                        }
                        None
                    },
                    DigitScan::TooBig => {
                        proof {
                            if all_digits(fsub) {
                                lemma_digits_val_bound(fsub);
                                lemma_pow10_mono(fsub.len() as nat, 8);
                                lemma_pow10_values();
                            }
                            assert(!all_digits(fp)) by {
                                if all_digits(fp) {
                                    assert forall|t: int| 0 <= t < fsub.len() implies is_digit(
                                        fsub[t],
                                    ) by {
                                        assert(fsub[t] == fp[t]);
                                    }
                                }
                            }
                        }
                        None
                    },
                    DigitScan::Value(fv) => {
                        // everything from the ninth fractional digit on must be zero
                        let mut j = fstart + k;
                        while j < n
                            invariant
                                n == s@.len(),
                                fstart + 8 <= j || j == n,
                                fstart + k <= j <= n,
                                fstart + flen == n,
                                fp == s@.skip(fstart as int),
                                forall|t: int| 8 <= t < j - fstart ==> fp[t] == '0',
                            decreases n - j,
                        {
                            if s.get_char(j) != '0' {
                                proof {
                                    assert(fp[j - fstart] == s@[j as int]);
                                    assert(!frac_tail_zero(fp));
                                }
                                return None;
                            }
                            proof {
                                assert(fp[j - fstart] == s@[j as int]);
                            }
                            j += 1;
                        }
                        proof {
                            assert(frac_tail_zero(fp));
                            assert(all_digits(fp)) by {
                                assert forall|t: int| 0 <= t < fp.len() implies is_digit(
                                    fp[t],
                                ) by {
                                    if t < k {
                                        assert(fp[t] == fsub[t]);
                                    } else {
                                        assert(fp[t] == '0');
                                    }
                                }
                            }
                        }
                        let scale: u64 = if k == 8 {
                            1
                        } else if k == 7 {
                            10
                        } else if k == 6 {
                            100
                        } else if k == 5 {
                            1000
                        } else if k == 4 {
                            10000
                        } else if k == 3 {
                            100000
                        } else if k == 2 {
                            1000000
                        } else {
                            10000000
                        };
                        proof {
                            lemma_pow10_values();
                            assert(scale == pow10((8 - k) as nat));
                            lemma_digits_val_bound(fsub);
                            lemma_pow10_adds(k as nat, (8 - k) as nat);
                            lemma_pow10_pos((8 - k) as nat);
                            assert(fv * scale < pow10(8)) by (nonlinear_arith)
                                requires
                                    0 <= fv < pow10(k as nat),
                                    scale == pow10((8 - k) as nat),
                                    pow10(k as nat) * pow10((8 - k) as nat) == pow10(8),
                                    scale >= 1,
                            ;
                            lemma_pow10_values();
                        }
                        let fval = fv * scale;
                        proof {
                            if flen >= 8 {
                                assert(frac8(fp) =~= fsub);
                            } else {
                                assert(fsub =~= fp);
                                lemma_digits_val_zeros(fp, (8 - flen) as nat);
                            }
                            assert(fval as nat == digits_val(frac8(fp)));
                        }
                        match ival.checked_mul(UNITS_PER_COIN) {
                            None => None,
                            Some(base) => base.checked_add(fval),
                        }
                    },
                }
            },
        }
    }
}

pub proof fn lemma_dec_str_digits(n: nat)
    ensures
        all_digits(dec_str(n)),
        digits_val(dec_str(n)) == n,
        dec_str(n).len() >= 1,
    decreases n,
{
    if n < 10 {
        assert(digit_val(char_of_digit(n as int)) == n);
        assert(dec_str(n).drop_last() =~= Seq::<char>::empty());
        assert(digits_val(dec_str(n)) == digits_val(dec_str(n).drop_last()) * 10 + (digit_val(
            dec_str(n).last(),
        ) as nat));
    } else {
        lemma_dec_str_digits(n / 10);
        assert(dec_str(n).drop_last() =~= dec_str(n / 10));
        assert(dec_str(n).last() == char_of_digit((n % 10) as int));
        assert(digit_val(char_of_digit((n % 10) as int)) == n % 10);
        assert(all_digits(dec_str(n))) by {
            assert forall|i: int| 0 <= i < dec_str(n).len() implies is_digit(dec_str(n)[i]) by {
                if i < dec_str(n).len() - 1 {
                    assert(dec_str(n)[i] == dec_str(n / 10)[i]);
                }
            }
        }
    }
}

proof fn lemma_digits_val_all_zeros(k: nat)
    ensures
        digits_val(zeros(k)) == 0,
    decreases k,
{
    if k > 0 {
        lemma_digits_val_all_zeros((k - 1) as nat);
        assert(zeros(k).drop_last() =~= zeros((k - 1) as nat));
        assert(zeros(k).last() == '0');
    }
}

/// Leading zero digits do not change the value.
pub proof fn lemma_digits_val_leading_zeros(k: nat, s: Seq<char>)
    ensures
        digits_val(zeros(k) + s) == digits_val(s),
    decreases s.len(),
{
    if s.len() == 0 {
        assert(zeros(k) + s =~= zeros(k));
        lemma_digits_val_all_zeros(k);
    } else {
        lemma_digits_val_leading_zeros(k, s.drop_last());
        assert((zeros(k) + s).drop_last() =~= zeros(k) + s.drop_last());
        assert((zeros(k) + s).last() == s.last());
    }
}

/// A number below `10^k` takes at most `k` decimal digits.
pub proof fn lemma_dec_len_le(n: nat, k: nat)
    requires
        n < pow10(k),
        k >= 1,
    ensures
        dec_str(n).len() <= k,
    decreases k,
{
    if n >= 10 {
        assert(pow10(k) == 10 * pow10((k - 1) as nat));
        lemma_dec_len_le(n / 10, (k - 1) as nat);
    }
}

/// `dot_pos` is the first dot, so a dot with none before it pins it down.
pub proof fn lemma_dot_pos_at(s: Seq<char>, i: int)
    requires
        0 <= i < s.len(),
        s[i] == '.',
        forall|j: int| 0 <= j < i ==> s[j] != '.',
    ensures
        dot_pos(s) == i,
    decreases s.len(),
{
    if i > 0 {
        lemma_dot_pos_at(s.drop_first(), i - 1);
        assert(forall|j: int| 0 <= j < i - 1 ==> s.drop_first()[j] == s[j + 1]);
    }
}

/// The decimal text of a fraction of a coin: exactly eight digits, the
/// value of `f` smallest units left-padded with zeros.
pub open spec fn frac8_str(f: nat) -> Seq<char> {
    zeros((8 - dec_str(f).len()) as nat) + dec_str(f)
}

/// The decimal coin text of `sats` smallest units: the whole-coin part, a
/// dot, and the full eight fractional places.
pub open spec fn amount_str(sats: u64) -> Seq<char> {
    dec_str((sats / UNITS_PER_COIN) as nat) + seq!['.'] + frac8_str((sats % UNITS_PER_COIN) as nat)
}

/// Appends the decimal text of `n` to `out`.
pub fn push_dec(out: &mut String, n: u64)
    ensures
        final(out)@ == old(out)@ + dec_str(n as nat),
    decreases n,
{
    if n >= 10 {
        push_dec(out, n / 10);
    }
    let d: u8 = (n % 10) as u8 + 48;
    out.push(d as char);
    proof {
        if n < 10 {
            assert((d as char) == char_of_digit(n as int));
            assert(old(out)@ + dec_str(n as nat) =~= old(out)@.push(d as char));
        } else {
            assert((d as char) == char_of_digit(((n as nat) % 10) as int));
            assert(old(out)@ + dec_str(n as nat) =~= (old(out)@ + dec_str(
                ((n as nat) / 10) as nat,
            )).push(d as char));
        }
    }
}

/// Appends exactly eight fractional digits for `f` smallest units.
#[verifier::loop_isolation(false)]
pub fn push_frac8(out: &mut String, f: u64)
    requires
        f < UNITS_PER_COIN,
    ensures
        final(out)@ == old(out)@ + frac8_str(f as nat),
{
    proof {
        lemma_pow10_values();
        lemma_dec_len_le(f as nat, 8);
        lemma_dec_str_digits(f as nat);
    }
    let mut t = f;
    let mut digits: usize = 1;
    while t >= 10
        invariant
            dec_str(f as nat).len() == dec_str(t as nat).len() + digits - 1,
            1 <= digits,
        decreases t,
    {
        proof {
            lemma_dec_str_digits((t as nat) / 10);
        }
        t = t / 10;
        digits += 1;
    }
    proof {
        assert(dec_str(t as nat).len() == 1);
        assert(digits == dec_str(f as nat).len());
    }
    let zcount: usize = 8 - digits;
    let mut i: usize = 0;
    while i < zcount
        invariant
            i <= zcount,
            out@ == old(out)@ + zeros(i as nat),
        decreases zcount - i,
    {
        out.push('0');
        proof {
            assert(zeros((i + 1) as nat) =~= zeros(i as nat).push('0'));
            assert(old(out)@ + zeros((i + 1) as nat) =~= (old(out)@ + zeros(i as nat)).push('0'));
        }
        i += 1;
    }
    push_dec(out, f);
    proof {
        assert(old(out)@ + zeros(zcount as nat) + dec_str(f as nat) =~= old(out)@ + frac8_str(
            f as nat,
        ));
    }
}

/// Appends the decimal coin text of `sats` smallest units.
pub fn push_amount(out: &mut String, sats: u64)
    ensures
        final(out)@ == old(out)@ + amount_str(sats),
{
    push_dec(out, sats / UNITS_PER_COIN);
    out.push('.');
    push_frac8(out, sats % UNITS_PER_COIN);
    proof {
        assert(final(out)@ =~= old(out)@ + amount_str(sats));
    }
}

/// The decimal coin text of a count of smallest units.
pub fn format_amount(sats: u64) -> (r: String)
    ensures
        r@ == amount_str(sats),
{
    let mut out = String::new();
    push_amount(&mut out, sats);
    proof {
        assert(out@ =~= amount_str(sats));
    }
    out
}

/// Formatting a unit count and reading the text back yields the same count:
/// the amount written into a request body denotes exactly the amount meant.
pub proof fn lemma_amount_round_trip(sats: u64)
    ensures
        parse_amount_spec(amount_str(sats)) == Some(sats),
{
    let q = (sats / UNITS_PER_COIN) as nat;
    let r = (sats % UNITS_PER_COIN) as nat;
    let ipart = dec_str(q);
    let fpart = frac8_str(r);
    let s = amount_str(sats);
    lemma_dec_str_digits(q);
    lemma_dec_str_digits(r);
    lemma_pow10_values();
    lemma_dec_len_le(r, 8);
    lemma_digits_val_leading_zeros((8 - dec_str(r).len()) as nat, dec_str(r));
    assert(fpart.len() == 8);
    assert(all_digits(fpart)) by {
        assert forall|t: int| 0 <= t < fpart.len() implies is_digit(fpart[t]) by {
            if t < 8 - dec_str(r).len() {
                assert(fpart[t] == '0');
            } else {
                assert(fpart[t] == dec_str(r)[t - (8 - dec_str(r).len())]);
            }
        }
    }
    let p = ipart.len() as int;
    assert(s[p] == '.');
    assert(forall|j: int| 0 <= j < p ==> s[j] == ipart[j]);
    assert(forall|j: int| 0 <= j < p ==> s[j] != '.');
    lemma_dot_pos_at(s, p);
    assert(s.take(p) =~= ipart);
    assert(s.skip(p + 1) =~= fpart);
    assert(frac8(fpart) =~= fpart);
    assert(frac_tail_zero(fpart));
    assert(digits_val(ipart) * (UNITS_PER_COIN as nat) + digits_val(frac8(fpart)) == sats) by {
        assert(q * (UNITS_PER_COIN as nat) + r == sats);
        assert(digits_val(frac8(fpart)) == digits_val(fpart));
    }
}

/// Parses a plain decimal integer, as used for an output index.
pub fn parse_index(s: &str) -> (r: Option<u64>)
    ensures
        r == parse_index_spec(s@),
{
    let n = s.unicode_len();
    if n == 0 {
        return None;
    }
    proof {
        assert(s@.subrange(0, n as int) =~= s@);
    }
    match scan_digits(s, 0, n) {
        DigitScan::Value(v) => Some(v),
        DigitScan::NonDigit => None,
        DigitScan::TooBig => None,
    }
}

} // verus!
