use vstd::prelude::*;

verus! {

use crate::strings::{chars_to_string, to_chars};

/// One exact decimal value: a sign, a magnitude, and how many digits of the
/// magnitude lie behind the decimal point. The simulator computes field
/// mutations on these instead of on binary floating point, exactly.
pub struct DecVal {
    pub neg: bool,
    pub mant: u128,
    pub scale: u32,
}

/// Ten to the `e`th.
pub open spec fn pow10(e: nat) -> nat
    decreases e,
{
    if e == 0 {
        1
    } else {
        10 * pow10((e - 1) as nat)
    }
}

proof fn lemma_pow10_le(i: nat, j: nat)
    requires
        i <= j,
    ensures
        pow10(i) <= pow10(j),
    decreases j,
{
    if j > 0 && i < j {
        lemma_pow10_le(i, (j - 1) as nat);
    }
}

/// Ten to the `e`th, for the exponents the arithmetic uses.
fn pow10_exec(e: u32) -> (r: Option<u128>)
    ensures
        match r {
            Some(v) => e <= 20 && v == pow10(e as nat),
            None => e > 20,
        },
{
    if e > 20 {
        return None;
    }
    proof {
        reveal_with_fuel(pow10, 21);
        assert(pow10(20) == 100000000000000000000);
    }
    let mut acc: u128 = 1;
    let mut i: u32 = 0;
    while i < e
        invariant
            i <= e <= 20,
            acc == pow10(i as nat),
        decreases e - i,
    {
        proof {
            lemma_pow10_le((i + 1) as nat, 20);
        }
        acc = acc * 10;
        i = i + 1;
    }
    Some(acc)
}

/// The largest magnitude a parsed literal may carry.
pub open spec fn mant_cap() -> int {
    1000000000000000000
}

/// One decimal digit, or nothing.
pub open spec fn digit_val(c: char) -> Option<int> {
    if '0' <= c && c <= '9' {
        Some(c as int - 48)
    } else {
        None
    }
}

/// Reads digits with at most one decimal point from position `i` on:
/// the magnitude read so far, the digits seen behind the point, and
/// whether any digit was seen at all.
pub open spec fn scan_dec(s: Seq<char>, i: int, acc: int, seen_dot: bool, scale: int, any: bool)
    -> Option<(int, int)>
    decreases s.len() - i,
{
    if i < 0 || i >= s.len() {
        if any {
            Some((acc, scale))
        } else {
            None
        }
    } else if s[i] == '.' {
        if seen_dot {
            None
        } else {
            scan_dec(s, i + 1, acc, true, scale, any)
        }
    } else {
        match digit_val(s[i]) {
            Some(d) => if acc >= mant_cap() || scale >= 18 {
                None
            } else {
                scan_dec(
                    s,
                    i + 1,
                    acc * 10 + d,
                    seen_dot,
                    if seen_dot {
                        scale + 1
                    } else {
                        scale
                    },
                    true,
                )
            },
            None => None,
        }
    }
}

/// The decimal value a trimmed literal denotes: an optional sign, digits,
/// and at most one decimal point; anything else is no value.
pub open spec fn spec_parse_dec(s: Seq<char>) -> Option<DecVal> {
    let (neg, body) = if s.len() > 0 && s[0] == '-' {
        (true, s.skip(1))
    } else if s.len() > 0 && s[0] == '+' {
        (false, s.skip(1))
    } else {
        (false, s)
    };
    match scan_dec(body, 0, 0, false, 0, false) {
        Some((m, sc)) => Some(DecVal { neg, mant: m as u128, scale: sc as u32 }),
        None => None,
    }
}

fn scan_dec_exec(v: &Vec<char>, i: usize, acc: u128, seen_dot: bool, scale: u32, any: bool) -> (r:
    Option<(u128, u32)>)
    requires
        i <= v@.len(),
        acc <= 10 * mant_cap(),
        scale <= 18,
    ensures
        match r {
            Some((m, sc)) => scan_dec(v@, i as int, acc as int, seen_dot, scale as int, any)
                == Some((m as int, sc as int)) && m <= 10 * mant_cap() && sc <= 18,
            None => scan_dec(v@, i as int, acc as int, seen_dot, scale as int, any) is None,
        },
    decreases v@.len() - i,
{
    if i >= v.len() {
        if any {
            Some((acc, scale))
        } else {
            None
        }
    } else if v[i] == '.' {
        if seen_dot {
            None
        } else {
            scan_dec_exec(v, i + 1, acc, true, scale, any)
        }
    } else {
        let c = v[i];
        if '0' <= c && c <= '9' {
            let d: u128 = (c as u128) - 48;
            if acc >= 1000000000000000000u128 || scale >= 18 {
                None
            } else {
                scan_dec_exec(
                    v,
                    i + 1,
                    acc * 10 + d,
                    seen_dot,
                    if seen_dot {
                        scale + 1
                    } else {
                        scale
                    },
                    true,
                )
            }
        } else {
            None
        }
    }
}

/// Parses a trimmed numeric literal into an exact decimal value.
pub fn parse_dec(s: &str) -> (r: Option<DecVal>)
    ensures
        r == spec_parse_dec(s@),
{
    let v = to_chars(s);
    let (neg, start): (bool, usize) = if v.len() > 0 && v[0] == '-' {
        (true, 1)
    } else if v.len() > 0 && v[0] == '+' {
        (false, 1)
    } else {
        (false, 0)
    };
    proof {
        if start == 1 {
            assert(v@.skip(1) =~= v@.subrange(1, v@.len() as int));
        } else {
            assert(v@.skip(0) =~= v@);
        }
    }
    let body: Vec<char> = slice_suffix(&v, start);
    match scan_dec_exec(&body, 0, 0, false, 0, false) {
        Some((m, sc)) => Some(DecVal { neg, mant: m, scale: sc }),
        None => None,
    }
}

/// The characters of `v` from position `start` on.
fn slice_suffix(v: &Vec<char>, start: usize) -> (r: Vec<char>)
    requires
        start <= v@.len(),
    ensures
        r@ == v@.skip(start as int),
{
    let mut out: Vec<char> = Vec::new();
    let mut i: usize = start;
    while i < v.len()
        invariant
            start <= i <= v@.len(),
            out@ == v@.subrange(start as int, i as int),
        decreases v@.len() - i,
    {
        out.push(v[i]);
        i = i + 1;
        proof {
            assert(out@ =~= v@.subrange(start as int, i as int));
        }
    }
    proof {
        assert(v@.subrange(start as int, v@.len() as int) =~= v@.skip(start as int));
    }
    out
}

/// Drops trailing zero digits behind the decimal point.
pub open spec fn spec_strip(m: int, sc: int) -> (int, int)
    decreases sc,
{
    if sc > 0 && m % 10 == 0 {
        spec_strip(m / 10, sc - 1)
    } else {
        (m, sc)
    }
}

fn strip_zeros(m: u128, sc: u32) -> (r: (u128, u32))
    ensures
        spec_strip(m as int, sc as int) == (r.0 as int, r.1 as int),
        r.1 <= sc,
    decreases sc,
{
    if sc > 0 && m % 10 == 0 {
        strip_zeros(m / 10, sc - 1)
    } else {
        (m, sc)
    }
}

/// The decimal numeral of a magnitude, most significant digit first.
pub open spec fn mant_str(n: nat) -> Seq<char>
    decreases n,
{
    if n < 10 {
        seq![crate::strings::digit_char(n)]
    } else {
        mant_str(n / 10) + seq![crate::strings::digit_char(n % 10)]
    }
}

fn mant_to_chars(n: u128) -> (r: Vec<char>)
    ensures
        r@ == mant_str(n as nat),
{
    let mut digits: Vec<char> = Vec::new();
    let mut m: u128 = n;
    proof {
        assert(mant_str(n as nat) =~= mant_str(n as nat) + digits@);
    }
    while m >= 10
        invariant
            mant_str(n as nat) == mant_str(m as nat) + digits@,
        decreases m,
    {
        let d: u8 = (m % 10) as u8;
        let c: char = (48 + d) as char;
        let ghost prev = digits@;
        proof {
            assert(c == crate::strings::digit_char(m as nat % 10));
            assert(mant_str(m as nat) == mant_str(m as nat / 10) + seq![
                crate::strings::digit_char(m as nat % 10),
            ]);
        }
        digits.insert(0, c);
        m = m / 10;
        proof {
            assert(digits@ =~= seq![c] + prev);
            assert(mant_str(n as nat) =~= mant_str(m as nat) + digits@);
        }
    }
    let d: u8 = (m % 10) as u8;
    let c: char = (48 + d) as char;
    let ghost prev = digits@;
    digits.insert(0, c);
    proof {
        assert(c == crate::strings::digit_char(m as nat));
        assert(mant_str(m as nat) == seq![crate::strings::digit_char(m as nat)]);
        assert(digits@ =~= seq![c] + prev);
        assert(mant_str(n as nat) =~= digits@);
    }
    digits
}

/// `n` zero characters.
pub open spec fn zeros(n: int) -> Seq<char>
    decreases n,
{
    if n <= 0 {
        Seq::empty()
    } else {
        zeros(n - 1).push('0')
    }
}

/// How a value renders: trailing fraction zeros dropped, an integral value
/// shown with one decimal place, a sign only on a nonzero negative value.
pub open spec fn spec_render(v: DecVal) -> Seq<char> {
    let (m, sc) = spec_strip(v.mant as int, v.scale as int);
    let sign: Seq<char> = if v.neg && v.mant > 0 {
        seq!['-']
    } else {
        Seq::empty()
    };
    if sc <= 0 {
        sign + mant_str(m as nat) + ".0"@
    } else {
        let digits = mant_str(m as nat);
        if digits.len() > sc {
            sign + digits.subrange(0, digits.len() - sc) + "."@ + digits.subrange(
                digits.len() - sc,
                digits.len() as int,
            )
        } else {
            sign + "0."@ + zeros(sc - digits.len()) + digits
        }
    }
}

/// Renders a value as the simulator records it.
#[verifier::rlimit(80)]
pub fn render_dec(v: &DecVal) -> (r: String)
    ensures
        r@ == spec_render(*v),
{
    proof {
        reveal_strlit(".");
        reveal_strlit(".0");
        reveal_strlit("0.");
    }
    let (m, sc) = strip_zeros(v.mant, v.scale);
    let mut out: Vec<char> = Vec::new();
    if v.neg && v.mant > 0 {
        out.push('-');
    }
    let ghost sign = out@;
    let digits = mant_to_chars(m);
    if sc == 0 {
        let mut i: usize = 0;
        while i < digits.len()
            invariant
                i <= digits@.len(),
                out@ == sign + digits@.subrange(0, i as int),
            decreases digits@.len() - i,
        {
            out.push(digits[i]);
            i = i + 1;
            proof {
                assert(out@ =~= sign + digits@.subrange(0, i as int));
            }
        }
        out.push('.');
        out.push('0');
        proof {
            assert(digits@.subrange(0, digits@.len() as int) =~= digits@);
            assert(out@ =~= spec_render(*v));
        }
    } else if digits.len() > sc as usize {
        let cut = digits.len() - sc as usize;
        let mut i: usize = 0;
        while i < digits.len()
            invariant
                i <= digits@.len(),
                cut == digits@.len() - sc,
                sc > 0,
                out@ == if i <= cut {
                    sign + digits@.subrange(0, i as int)
                } else {
                    sign + digits@.subrange(0, cut as int) + "."@ + digits@.subrange(
                        cut as int,
                        i as int,
                    )
                },
            decreases digits@.len() - i,
        {
            if i == cut {
                out.push('.');
                proof {
                    assert(digits@.subrange(cut as int, cut as int) =~= Seq::<char>::empty());
                    assert(out@ =~= sign + digits@.subrange(0, cut as int) + "."@
                        + digits@.subrange(cut as int, i as int));
                }
            }
            out.push(digits[i]);
            i = i + 1;
            proof {
                if i <= cut {
                    assert(out@ =~= sign + digits@.subrange(0, i as int));
                } else {
                    assert(out@ =~= sign + digits@.subrange(0, cut as int) + "."@
                        + digits@.subrange(cut as int, i as int));
                }
            }
        }
        proof {
            assert(digits@.subrange(0, cut as int) + "."@ + digits@.subrange(
                cut as int,
                digits@.len() as int,
            ) =~= digits@.subrange(0, cut as int) + "."@ + digits@.subrange(
                cut as int,
                digits@.len() as int,
            ));
            assert(out@ =~= spec_render(*v));
        }
    } else {
        out.push('0');
        out.push('.');
        let ghost base = out@;
        let pad = sc as usize - digits.len();
        let mut i: usize = 0;
        while i < pad
            invariant
                i <= pad,
                out@ == base + zeros(i as int),
            decreases pad - i,
        {
            out.push('0');
            i = i + 1;
            proof {
                assert(out@ =~= base + zeros(i as int));
            }
        }
        let ghost base2 = out@;
        let mut i: usize = 0;
        while i < digits.len()
            invariant
                i <= digits@.len(),
                out@ == base2 + digits@.subrange(0, i as int),
            decreases digits@.len() - i,
        {
            out.push(digits[i]);
            i = i + 1;
            proof {
                assert(out@ =~= base2 + digits@.subrange(0, i as int));
            }
        }
        proof {
            assert(digits@.subrange(0, digits@.len() as int) =~= digits@);
            assert(out@ =~= spec_render(*v));
        }
    }
    chars_to_string(&out)
}

use crate::strings::{spec_trim, str_eq, trim_str};

/// The two magnitudes brought to one scale; nothing when a magnitude would
/// not fit.
pub open spec fn spec_align(a: DecVal, b: DecVal) -> Option<(int, int, u32)> {
    let s = if a.scale >= b.scale {
        a.scale
    } else {
        b.scale
    };
    let am = a.mant * pow10((s - a.scale) as nat);
    let bm = b.mant * pow10((s - b.scale) as nat);
    if am > u128::MAX || bm > u128::MAX {
        None
    } else {
        Some((am, bm, s))
    }
}

/// The exact sum of two values, at the wider scale.
pub open spec fn spec_add(a: DecVal, b: DecVal) -> Option<DecVal> {
    match spec_align(a, b) {
        None => None,
        Some((am, bm, s)) => if a.neg == b.neg {
            if am + bm > u128::MAX {
                None
            } else {
                Some(DecVal { neg: a.neg, mant: (am + bm) as u128, scale: s })
            }
        } else if am >= bm {
            Some(DecVal { neg: a.neg, mant: (am - bm) as u128, scale: s })
        } else {
            Some(DecVal { neg: b.neg, mant: (bm - am) as u128, scale: s })
        },
    }
}

/// The exact product of two values.
pub open spec fn spec_mul(a: DecVal, b: DecVal) -> Option<DecVal> {
    if a.mant * b.mant > u128::MAX || a.scale + b.scale > u32::MAX {
        None
    } else {
        Some(
            DecVal {
                neg: a.neg != b.neg,
                mant: (a.mant * b.mant) as u128,
                scale: (a.scale + b.scale) as u32,
            },
        )
    }
}

/// The first scale extension within twenty digits at which the quotient
/// comes out exact.
pub open spec fn spec_div_scan(am: int, bm: int, e: int, stop: int) -> Option<(int, int)>
    decreases stop + 21 - e,
{
    if e > stop || e > 20 || bm <= 0 {
        None
    } else {
        let p = am * pow10(e as nat);
        if p > u128::MAX {
            None
        } else if p % bm == 0 {
            Some((p / bm, e))
        } else {
            spec_div_scan(am, bm, e + 1, stop)
        }
    }
}

/// The exact quotient of two values, when it terminates within twenty
/// digits; nothing on division by zero.
pub open spec fn spec_div(a: DecVal, b: DecVal) -> Option<DecVal> {
    if b.mant == 0 {
        None
    } else if a.mant == 0 {
        Some(DecVal { neg: false, mant: 0, scale: 0 })
    } else {
        let e0: int = if b.scale > a.scale {
            b.scale - a.scale
        } else {
            0
        };
        match spec_div_scan(a.mant as int, b.mant as int, e0, e0 + 20) {
            None => None,
            Some((q, e)) => if q > u128::MAX {
                None
            } else {
                Some(
                    DecVal {
                        neg: a.neg != b.neg,
                        mant: q as u128,
                        scale: (a.scale + e - b.scale) as u32,
                    },
                )
            },
        }
    }
}

/// What one compound operator computes from the current value and the
/// operand; an unsupported operator computes nothing.
pub open spec fn spec_apply_op(op: Seq<char>, cur: DecVal, opd: DecVal) -> Option<DecVal> {
    if op == "+="@ {
        spec_add(cur, opd)
    } else if op == "-="@ {
        spec_add(cur, DecVal { neg: !opd.neg, mant: opd.mant, scale: opd.scale })
    } else if op == "*="@ {
        spec_mul(cur, opd)
    } else if op == "/="@ {
        spec_div(cur, opd)
    } else {
        None
    }
}

/// The rendered result of a compound mutation: both texts parsed as exact
/// decimals, the operator applied, the result rendered; nothing when a
/// parse fails, the operator is unsupported, a divisor is zero, or the
/// result is no exact decimal within bounds.
pub open spec fn spec_compound(cur: Seq<char>, op: Seq<char>, opd: Seq<char>) -> Option<Seq<char>> {
    match spec_parse_dec(spec_trim(cur)) {
        None => None,
        Some(a) => match spec_parse_dec(spec_trim(opd)) {
            None => None,
            Some(b) => match spec_apply_op(op, a, b) {
                None => None,
                Some(r) => Some(spec_render(r)),
            },
        },
    }
}

fn align(a: &DecVal, b: &DecVal) -> (r: Option<(u128, u128, u32)>)
    requires
        a.scale <= 18,
        b.scale <= 18,
    ensures
        match r {
            Some((am, bm, s)) => spec_align(*a, *b) == Some((am as int, bm as int, s)),
            None => spec_align(*a, *b) is None,
        },
{
    let s = if a.scale >= b.scale {
        a.scale
    } else {
        b.scale
    };
    let pa = match pow10_exec(s - a.scale) {
        Some(p) => p,
        None => {
            proof {
                assert(false);
            }
            return None;
        },
    };
    let pb = match pow10_exec(s - b.scale) {
        Some(p) => p,
        None => {
            proof {
                assert(false);
            }
            return None;
        },
    };
    let am = match a.mant.checked_mul(pa) {
        Some(v) => v,
        None => {
            return None;
        },
    };
    let bm = match b.mant.checked_mul(pb) {
        Some(v) => v,
        None => {
            return None;
        },
    };
    Some((am, bm, s))
}

/// Applies one compound operator to two parsed values.
fn apply_op(op: &str, cur: &DecVal, opd: &DecVal) -> (r: Option<DecVal>)
    requires
        cur.scale <= 18,
        opd.scale <= 18,
    ensures
        r == spec_apply_op(op@, *cur, *opd),
{
    if str_eq(op, "+=") {
        add_vals(cur, opd)
    } else if str_eq(op, "-=") {
        let flipped = DecVal { neg: !opd.neg, mant: opd.mant, scale: opd.scale };
        add_vals(cur, &flipped)
    } else if str_eq(op, "*=") {
        match cur.mant.checked_mul(opd.mant) {
            Some(m) => {
                let sc = cur.scale + opd.scale;
                Some(DecVal { neg: cur.neg != opd.neg, mant: m, scale: sc })
            },
            None => None,
        }
    } else if str_eq(op, "/=") {
        div_vals(cur, opd)
    } else {
        None
    }
}

/// The exact sum of two aligned values.
fn add_vals(a: &DecVal, b: &DecVal) -> (r: Option<DecVal>)
    requires
        a.scale <= 18,
        b.scale <= 18,
    ensures
        r == spec_add(*a, *b),
{
    match align(a, b) {
        None => None,
        Some((am, bm, s)) => {
            if a.neg == b.neg {
                match am.checked_add(bm) {
                    Some(m) => Some(DecVal { neg: a.neg, mant: m, scale: s }),
                    None => None,
                }
            } else if am >= bm {
                Some(DecVal { neg: a.neg, mant: am - bm, scale: s })
            } else {
                Some(DecVal { neg: b.neg, mant: bm - am, scale: s })
            }
        },
    }
}

fn div_scan(am: u128, bm: u128, e: u32, stop: u32) -> (r: Option<(u128, u32)>)
    requires
        bm > 0,
        am > 0,
        e <= stop,
        stop <= 60,
    ensures
        match r {
            Some((q, ee)) => spec_div_scan(am as int, bm as int, e as int, stop as int) == Some(
                (q as int, ee as int),
            ) && e <= ee <= stop,
            None => spec_div_scan(am as int, bm as int, e as int, stop as int) is None,
        },
    decreases stop - e,
{
    let p = match pow10_exec(e) {
        Some(pw) => match am.checked_mul(pw) {
            Some(p) => p,
            None => {
                return None;
            },
        },
        None => {
            return None;
        },
    };
    if p % bm == 0 {
        Some((p / bm, e))
    } else if e == stop {
        None
    } else {
        div_scan(am, bm, e + 1, stop)
    }
}

/// The exact quotient, when one exists within twenty digits.
fn div_vals(a: &DecVal, b: &DecVal) -> (r: Option<DecVal>)
    requires
        a.scale <= 18,
        b.scale <= 18,
    ensures
        r == spec_div(*a, *b),
{
    if b.mant == 0 {
        None
    } else if a.mant == 0 {
        Some(DecVal { neg: false, mant: 0, scale: 0 })
    } else {
        let e0: u32 = if b.scale > a.scale {
            b.scale - a.scale
        } else {
            0
        };
        match div_scan(a.mant, b.mant, e0, e0 + 20) {
            None => None,
            Some((q, e)) => Some(
                DecVal { neg: a.neg != b.neg, mant: q, scale: a.scale + e - b.scale },
            ),
        }
    }
}

/// The rendered result of one compound field mutation, computed exactly on
/// decimals; nothing when a text does not parse, the operator is not one of
/// the four compound forms, a divisor is zero, or the result cannot be
/// written exactly within bounds.
pub fn compute_compound(cur: &str, op: &str, opd: &str) -> (r: Option<String>)
    ensures
        match r {
            Some(s) => spec_compound(cur@, op@, opd@) == Some(s@),
            None => spec_compound(cur@, op@, opd@) is None,
        },
{
    let ct = trim_str(cur);
    let a = match parse_dec(ct.as_str()) {
        Some(a) => a,
        None => {
            return None;
        },
    };
    let ot = trim_str(opd);
    let b = match parse_dec(ot.as_str()) {
        Some(b) => b,
        None => {
            return None;
        },
    };
    proof {
        lemma_parse_scale(spec_trim(cur@));
        lemma_parse_scale(spec_trim(opd@));
    }
    match apply_op(op, &a, &b) {
        Some(v) => Some(render_dec(&v)),
        None => None,
    }
}

proof fn lemma_scan_scale(s: Seq<char>, i: int, acc: int, seen_dot: bool, scale: int, any: bool)
    requires
        0 <= scale <= 18,
    ensures
        match scan_dec(s, i, acc, seen_dot, scale, any) {
            Some((m, sc)) => 0 <= sc <= 18,
            None => true,
        },
    decreases s.len() - i,
{
    if 0 <= i < s.len() {
        if s[i] == '.' {
            if !seen_dot {
                lemma_scan_scale(s, i + 1, acc, true, scale, any);
            }
        } else {
            match digit_val(s[i]) {
                Some(d) => {
                    if !(acc >= mant_cap() || scale >= 18) {
                        lemma_scan_scale(
                            s,
                            i + 1,
                            acc * 10 + d,
                            seen_dot,
                            if seen_dot {
                                scale + 1
                            } else {
                                scale
                            },
                            true,
                        );
                    }
                },
                None => {},
            }
        }
    }
}

/// A parsed literal never carries more than eighteen fraction digits.
proof fn lemma_parse_scale(s: Seq<char>)
    ensures
        match spec_parse_dec(s) {
            Some(v) => v.scale <= 18,
            None => true,
        },
{
    let body = if s.len() > 0 && s[0] == '-' {
        s.skip(1)
    } else if s.len() > 0 && s[0] == '+' {
        s.skip(1)
    } else {
        s
    };
    lemma_scan_scale(body, 0, 0, false, 0, false);
}

/// The signed magnitude of a value: its mantissa, negated under the sign.
/// The value it denotes is this over ten to the scale.
pub open spec fn sval(v: DecVal) -> int {
    if v.neg {
        -(v.mant as int)
    } else {
        v.mant as int
    }
}

/// Law: a sum that comes out is exact — at the wider scale, its signed
/// magnitude is the sum of both operands' signed magnitudes brought to
/// that scale. No rounding ever happens; what cannot be represented is
/// refused instead.
pub proof fn lemma_add_exact(a: DecVal, b: DecVal, r: DecVal)
    requires
        spec_add(a, b) == Some(r),
    ensures
        r.scale == if a.scale >= b.scale {
            a.scale
        } else {
            b.scale
        },
        sval(r) == sval(a) * pow10((r.scale - a.scale) as nat) + sval(b) * pow10(
            (r.scale - b.scale) as nat,
        ),
{
    let s = if a.scale >= b.scale {
        a.scale
    } else {
        b.scale
    };
    let am = a.mant * pow10((s - a.scale) as nat);
    let bm = b.mant * pow10((s - b.scale) as nat);
    assert(sval(a) * pow10((s - a.scale) as nat) == if a.neg {
        -am
    } else {
        am
    }) by (nonlinear_arith)
        requires
            am == a.mant * pow10((s - a.scale) as nat),
            sval(a) == if a.neg {
                -(a.mant as int)
            } else {
                a.mant as int
            },
    ;
    assert(sval(b) * pow10((s - b.scale) as nat) == if b.neg {
        -bm
    } else {
        bm
    }) by (nonlinear_arith)
        requires
            bm == b.mant * pow10((s - b.scale) as nat),
            sval(b) == if b.neg {
                -(b.mant as int)
            } else {
                b.mant as int
            },
    ;
}

/// Law: a product that comes out is exact — its signed magnitude is the
/// product of the operands' signed magnitudes, at the sum of their scales.
pub proof fn lemma_mul_exact(a: DecVal, b: DecVal, r: DecVal)
    requires
        spec_mul(a, b) == Some(r),
    ensures
        r.scale == a.scale + b.scale,
        sval(r) == sval(a) * sval(b),
{
    assert(sval(a) * sval(b) == if a.neg != b.neg {
        -(a.mant * b.mant)
    } else {
        a.mant * b.mant
    }) by (nonlinear_arith)
        requires
            sval(a) == if a.neg {
                -(a.mant as int)
            } else {
                a.mant as int
            },
            sval(b) == if b.neg {
                -(b.mant as int)
            } else {
                b.mant as int
            },
    ;
}

} // verus!
