//! Text helpers: moving between `String` and `Vec<char>`, verified decimal
//! rendering of machine integers, and the grammar of Rust's decimal float
//! literals, which decides whether a program token is a numeric literal.

use vstd::prelude::*;

verus! {

/// Relies on `str::chars` of std: the characters of a string slice, in
/// order, are exactly its view.
#[verifier::external_body]
pub fn chars_of(s: &str) -> (r: Vec<char>)
    ensures
        r@ == s@,
{
    s.chars().collect()
}

/// Relies on `String::from_iter` of std: collecting characters builds the
/// string with exactly those characters.
#[verifier::external_body]
pub fn string_from_chars(cs: &Vec<char>) -> (r: String)
    ensures
        r@ == cs@,
{
    cs.iter().collect()
}

/// Relies on `str::eq` of std: string slices compare by their characters.
#[verifier::external_body]
pub fn str_eq(a: &str, b: &str) -> (r: bool)
    ensures
        r == (a@ == b@),
{
    a == b
}

/// Relies on `char::from_u32` of std: every value below 2^16 outside the
/// surrogate range is a Unicode scalar value and converts to its char.
#[verifier::external_body]
pub(crate) fn char_from_u16(u: u16) -> (r: char)
    requires
        u < 0xd800 || u >= 0xe000,
    ensures
        r as u32 == u as u32,
{
    char::from_u32(u as u32).unwrap_or(' ')
}

pub fn append_str(out: &mut Vec<char>, s: &str)
    ensures
        final(out)@ == old(out)@.add(s@),
{
    let cs = chars_of(s);
    append_chars(out, &cs);
}

pub fn append_chars(out: &mut Vec<char>, add: &Vec<char>)
    ensures
        final(out)@ == old(out)@.add(add@),
{
    let n: usize = add.len();
    let mut i: usize = 0;
    while i < n
        invariant
            n == add@.len(),
            i <= n,
            out@ == old(out)@.add(add@.take(i as int)),
        decreases n - i,
    {
        proof {
            assert(add@.take(i + 1) == add@.take(i as int).push(add@[i as int]));
            assert(old(out)@.add(add@.take(i as int)).push(add@[i as int]) =~= old(out)@.add(
                add@.take(i + 1),
            ));
        }
        out.push(add[i]);
        i = i + 1;
    }
    proof {
        assert(add@.take(n as int) == add@);
    }
}

pub open spec fn is_digit(c: char) -> bool {
    '0' <= c && c <= '9'
}

pub open spec fn digit_char(d: u64) -> char {
    ((d + 0x30) as u8) as char
}

/// The decimal digits of `n`, most significant first.
pub open spec fn dec_digits(n: u64) -> Seq<char>
    decreases n,
{
    if n < 10 {
        seq![digit_char(n)]
    } else {
        dec_digits(n / 10).push(digit_char(n % 10))
    }
}

/// The decimal rendering of a signed machine integer, as std formats it.
pub open spec fn dec_digits_i64(v: i64) -> Seq<char> {
    if v >= 0 {
        dec_digits(v as u64)
    } else {
        seq!['-'].add(dec_digits(((0 - v as int) % 0x1_0000_0000_0000_0000) as u64))
    }
}

pub fn format_u64(n: u64) -> (r: Vec<char>)
    ensures
        r@ == dec_digits(n),
{
    let mut rev: Vec<char> = Vec::new();
    let mut t: u64 = n;
    loop
        invariant_except_break
            dec_digits(n) == dec_digits(t).add(rev@.reverse()),
        ensures
            dec_digits(n) == rev@.reverse(),
        decreases t,
    {
        let d: u64 = t % 10;
        let c: char = ((d + 0x30) as u8) as char;
        proof {
            assert(rev@.push(digit_char(t % 10)).reverse() =~= seq![
                digit_char(t % 10),
            ].add(rev@.reverse()));
            if t < 10 {
                assert(dec_digits(t) == seq![digit_char(t)]);
            } else {
                assert(dec_digits(t) == dec_digits(t / 10).push(digit_char(t % 10)));
                assert(dec_digits(t / 10).push(digit_char(t % 10)).add(rev@.reverse())
                    =~= dec_digits(t / 10).add(seq![digit_char(t % 10)].add(rev@.reverse())));
            }
        }
        rev.push(c);
        if t < 10 {
            break ;
        }
        t = t / 10;
    }
    let mut out: Vec<char> = Vec::new();
    let n2: usize = rev.len();
    let mut i: usize = 0;
    while i < n2
        invariant
            n2 == rev@.len(),
            i <= n2,
            out@ == rev@.reverse().take(i as int),
        decreases n2 - i,
    {
        proof {
            assert(rev@.reverse()[i as int] == rev@[n2 - 1 - i]);
            assert(rev@.reverse().take(i + 1) == rev@.reverse().take(i as int).push(
                rev@.reverse()[i as int],
            ));
        }
        out.push(rev[n2 - 1 - i]);
        i = i + 1;
    }
    proof {
        assert(out@ == rev@.reverse());
    }
    out
}

pub fn format_i64(v: i64) -> (r: Vec<char>)
    ensures
        r@ == dec_digits_i64(v),
{
    if v >= 0 {
        format_u64(v as u64)
    } else {
        let mag: u64 = if v == i64::MIN {
            0x8000_0000_0000_0000u64
        } else {
            (-v) as u64
        };
        proof {
            assert((0 - v as int) % 0x1_0000_0000_0000_0000 == mag);
        }
        let digits = format_u64(mag);
        let mut out: Vec<char> = Vec::new();
        out.push('-');
        let mut i: usize = 0;
        let n2: usize = digits.len();
        while i < n2
            invariant
                n2 == digits@.len(),
                i <= n2,
                out@ == seq!['-'].add(digits@.take(i as int)),
            decreases n2 - i,
        {
            proof {
                assert(digits@.take(i + 1) == digits@.take(i as int).push(digits@[i as int]));
            }
            out.push(digits[i]);
            i = i + 1;
        }
        proof {
            assert(digits@.take(n2 as int) == digits@);
        }
        out
    }
}

/// Where the run of decimal digits starting at `i` ends.
pub open spec fn digit_run_end(s: Seq<char>, i: int) -> int
    decreases s.len() - i,
{
    if 0 <= i < s.len() && is_digit(s[i]) {
        digit_run_end(s, i + 1)
    } else {
        i
    }
}

proof fn lemma_digit_run_end(s: Seq<char>, i: int)
    requires
        0 <= i <= s.len(),
    ensures
        i <= digit_run_end(s, i) <= s.len(),
    decreases s.len() - i,
{
    if i < s.len() && is_digit(s[i]) {
        lemma_digit_run_end(s, i + 1);
    }
}

pub fn find_digit_run_end(cs: &Vec<char>, start: usize) -> (r: usize)
    requires
        start <= cs@.len(),
    ensures
        r == digit_run_end(cs@, start as int),
        start <= r <= cs@.len(),
{
    let mut i: usize = start;
    while i < cs.len() && cs[i] >= '0' && cs[i] <= '9'
        invariant
            start <= i <= cs@.len(),
            digit_run_end(cs@, start as int) == digit_run_end(cs@, i as int),
        decreases cs@.len() - i,
    {
        i = i + 1;
    }
    proof {
        lemma_digit_run_end(cs@, i as int);
    }
    i
}

pub open spec fn lower_ascii(c: char) -> char {
    if 'A' <= c && c <= 'Z' {
        ((c as u8) + 0x20) as char
    } else {
        c
    }
}

/// Case-insensitive comparison with a word given in lower case.
pub open spec fn eq_ci(s: Seq<char>, w: Seq<char>) -> bool {
    s.len() == w.len() && (forall|i: int| 0 <= i < s.len() ==> lower_ascii(s[i]) == w[i])
}

pub fn chars_eq_ci(cs: &Vec<char>, start: usize, w: &Vec<char>) -> (r: bool)
    requires
        start <= cs@.len(),
    ensures
        r == eq_ci(cs@.skip(start as int), w@),
{
    if cs.len() - start != w.len() {
        return false;
    }
    let total: usize = cs.len();
    let n: usize = w.len();
    let mut i: usize = 0;
    while i < n
        invariant
            n == w@.len(),
            start + n == total,
            total == cs@.len(),
            i <= n,
            forall|j: int| 0 <= j < i ==> lower_ascii(cs@.skip(start as int)[j]) == w@[j],
        decreases n - i,
    {
        let c: char = cs[start + i];
        let lc: char = if c >= 'A' && c <= 'Z' {
            proof {
                assert(c as u8 == c as u32) by {
                    assert('A' <= c && c <= 'Z');
                }
            }
            ((c as u8) + 0x20) as char
        } else {
            c
        };
        assert(lc == lower_ascii(cs@.skip(start as int)[i as int]));
        if lc != w[i] {
            return false;
        }
        i = i + 1;
    }
    true
}

pub fn check_decimal_literal(cs: &Vec<char>) -> (r: bool)
    ensures
        r == is_decimal_literal(cs@),
{
    let p: usize = if cs.len() > 0 && (cs[0] == '+' || cs[0] == '-') {
        1
    } else {
        0
    };
    if p >= cs.len() {
        return false;
    }
    let q: usize = find_digit_run_end(cs, p);
    if q == p {
        if p < cs.len() && cs[p] == '.' {
            let q2: usize = find_digit_run_end(cs, p + 1);
            q2 > p + 1 && check_exp_ok(cs, q2)
        } else {
            false
        }
    } else {
        if q < cs.len() && cs[q] == '.' {
            let q2: usize = find_digit_run_end(cs, q + 1);
            check_exp_ok(cs, q2)
        } else {
            check_exp_ok(cs, q)
        }
    }
}

/// The significand with its trailing zeros dropped, down to the decimal
/// point's position (zeros at or before it are significant) and never
/// below one digit.
pub open spec fn strip_trailing_zeros(d: Seq<char>, keep: int) -> Seq<char>
    decreases d.len(),
{
    if d.len() > keep && d.len() > 1 && d.last() == '0' {
        strip_trailing_zeros(d.drop_last(), keep)
    } else {
        d
    }
}

/// The positional layout of significand digits around a decimal point at
/// position `pp`, with the sign in front: a leading `0.` and padding
/// zeros when the point comes first, padding zeros at the end when every
/// digit is integral, and a point between the digits otherwise.
pub open spec fn layout_positional(neg: bool, d: Seq<char>, pp: int) -> Seq<char> {
    let sign: Seq<char> = if neg {
        seq!['-']
    } else {
        Seq::empty()
    };
    if pp <= 0 {
        sign.add(seq!['0', '.']).add(zeros(0 - pp)).add(d)
    } else if pp >= d.len() {
        sign.add(d).add(zeros(pp - d.len()))
    } else {
        sign.add(d.subrange(0, pp)).add(seq!['.']).add(d.subrange(pp, d.len() as int))
    }
}

/// Lays the digits out positionally.
fn layout_digits(neg: bool, d: &Vec<char>, pp: i64) -> (r: Vec<char>)
    requires
        1 <= d@.len() <= 0x20_0000,
        -0x20_0000 <= pp <= 0x20_0000,
    ensures
        r@ == layout_positional(neg, d@, pp as int),
{
    let mut out: Vec<char> = Vec::new();
    if neg {
        out.push('-');
    }
    proof {
        if neg {
            assert(out@ =~= seq!['-']);
        } else {
            assert(out@ =~= Seq::<char>::empty());
        }
    }
    if pp <= 0 {
        out.push('0');
        out.push('.');
        push_zeros(&mut out, (-pp) as usize);
        append_chars(&mut out, d);
        proof {
            assert(out@ =~= layout_positional(neg, d@, pp as int));
        }
        out
    } else if pp >= d.len() as i64 {
        append_chars(&mut out, d);
        push_zeros(&mut out, (pp - d.len() as i64) as usize);
        proof {
            assert(out@ =~= layout_positional(neg, d@, pp as int));
        }
        out
    } else {
        let cut: usize = pp as usize;
        let head = subrange_chars(d, 0, cut);
        let tail = subrange_chars(d, cut, d.len());
        append_chars(&mut out, &head);
        out.push('.');
        append_chars(&mut out, &tail);
        proof {
            assert(out@ =~= layout_positional(neg, d@, pp as int));
        }
        out
    }
}

/// A run of zero characters.
pub open spec fn zeros(n: int) -> Seq<char>
    decreases n,
{
    if n <= 0 {
        Seq::empty()
    } else {
        zeros(n - 1).push('0')
    }
}

/// The value of the decimal digits of `s` between `i` and `j`.
pub open spec fn digits_val(s: Seq<char>, i: int, j: int) -> int
    decreases j - i,
{
    if i >= j {
        0
    } else {
        digits_val(s, i, j - 1) * 10 + (s[j - 1] as int - '0' as int)
    }
}

/// Every character of a digit run is a digit.
pub proof fn lemma_digit_run_digits(s: Seq<char>, i: int, j: int)
    requires
        0 <= i <= j,
        j <= digit_run_end(s, i),
        digit_run_end(s, i) <= s.len(),
    ensures
        forall|t: int| i <= t < j ==> is_digit(#[trigger] s[t]),
    decreases j - i,
{
    if i < j {
        assert(i < s.len() && is_digit(s[i]));
        lemma_digit_run_digits(s, i + 1, j);
        assert forall|t: int| i <= t < j implies is_digit(#[trigger] s[t]) by {
            if t > i {
            }
        }
    }
}

/// A decimal rendering rewritten in plain positional form: the significand
/// digits are laid out around the decimal point that the exponent part
/// names, zero-padded as needed, with no exponent left. A rendering that
/// is not of the decimal shape, or of an outlandish size, or that carries
/// an exponent of more than three digits (no double's rendering does
/// either) is returned unchanged.
pub open spec fn expand_positional(s: Seq<char>) -> Seq<char> {
    if !is_decimal_literal(s) || s.len() > 0x10_0000 {
        s
    } else {
        let p: int = if s[0] == '+' || s[0] == '-' {
            1int
        } else {
            0int
        };
        let neg = s[0] == '-';
        let q = digit_run_end(s, p);
        let hasdot = q < s.len() && s[q] == '.';
        let fstart = if hasdot {
            q + 1
        } else {
            q
        };
        let fend = if hasdot {
            digit_run_end(s, q + 1)
        } else {
            q
        };
        let hasexp = fend < s.len();
        let k0 = fend + 1;
        let eneg = hasexp && k0 < s.len() && s[k0] == '-';
        let k = if hasexp && k0 < s.len() && (s[k0] == '+' || s[k0] == '-') {
            k0 + 1
        } else {
            k0
        };
        if hasexp && s.len() - k > 3 {
            s
        } else {
            let ev: int = if hasexp {
                if eneg {
                    -digits_val(s, k, s.len() as int)
                } else {
                    digits_val(s, k, s.len() as int)
                }
            } else {
                0
            };
            let d0 = s.subrange(p, q).add(s.subrange(fstart, fend));
            let pp = (q - p) + ev;
            let d = strip_trailing_zeros(d0, pp);
            if d.len() == 0 {
                s
            } else {
                layout_positional(neg, d, pp)
            }
        }
    }
}

fn push_zeros(out: &mut Vec<char>, n: usize)
    ensures
        final(out)@ == old(out)@.add(zeros(n as int)),
{
    let mut j: usize = 0;
    while j < n
        invariant
            j <= n,
            out@ == old(out)@.add(zeros(j as int)),
        decreases n - j,
    {
        out.push('0');
        j = j + 1;
    }
}

/// Rewrites a decimal rendering in plain positional form.
#[verifier::rlimit(100)]
pub fn expand_decimal(cs: &Vec<char>) -> (r: Vec<char>)
    ensures
        r@ == expand_positional(cs@),
{
    if !check_decimal_literal(cs) || cs.len() > 0x10_0000 {
        return subchars_all(cs);
    }
    let n: usize = cs.len();
    let p: usize = if cs[0] == '+' || cs[0] == '-' {
        1
    } else {
        0
    };
    let neg: bool = cs[0] == '-';
    let q: usize = find_digit_run_end(cs, p);
    let hasdot: bool = q < n && cs[q] == '.';
    let fstart: usize = if hasdot {
        q + 1
    } else {
        q
    };
    let fend: usize = if hasdot {
        find_digit_run_end(cs, q + 1)
    } else {
        q
    };
    let hasexp: bool = fend < n;
    let k: usize = if hasexp {
        let k0 = fend + 1;
        if k0 < n && (cs[k0] == '+' || cs[k0] == '-') {
            k0 + 1
        } else {
            k0
        }
    } else {
        n
    };
    let eneg: bool = hasexp && fend + 1 < n && cs[fend + 1] == '-';
    if hasexp && n - k > 3 {
        return subchars_all(cs);
    }
    let eabs: u64 = if hasexp {
        proof {
            assert(digit_run_end(cs@, k as int) == cs@.len());
            lemma_digit_run_digits(cs@, k as int, n as int);
            assert(digits_val(cs@, k as int, k as int) == 0);
        }
        let mut val: u64 = 0;
        let mut t: usize = k;
        while t < n
            invariant
                k <= t <= n,
                n == cs@.len(),
                n - k <= 3,
                forall|u: int| k <= u < n ==> is_digit(#[trigger] cs@[u]),
                val == digits_val(cs@, k as int, t as int),
                val <= 999,
            decreases n - t,
        {
            let c: char = cs[t];
            proof {
                assert(is_digit(cs@[t as int]));
                assert(digits_val(cs@, k as int, t + 1) == digits_val(cs@, k as int, t as int) * 10
                    + (cs@[t as int] as int - '0' as int));
                assert(val <= 99) by {
                    assert(t - k <= 2);
                    lemma_digits_val_bound(cs@, k as int, t as int);
                }
            }
            val = val * 10 + ((c as u32 - 48) as u64);
            t = t + 1;
        }
        val
    } else {
        0
    };
    let ev: i64 = if eneg {
        -(eabs as i64)
    } else {
        eabs as i64
    };
    let mut d: Vec<char> = subrange_chars(cs, p, q);
    let frac = subrange_chars(cs, fstart, fend);
    append_chars(&mut d, &frac);
    proof {
        assert(n <= 0x10_0000);
    }
    let pp: i64 = ((q - p) as i64) + ev;
    let ghost d0 = d@;
    loop
        invariant_except_break
            strip_trailing_zeros(d0, pp as int) == strip_trailing_zeros(d@, pp as int),
            d@.len() <= d0.len() <= 0x10_0000 + 0x10_0000,
        ensures
            d@ == strip_trailing_zeros(d0, pp as int),
            d@.len() <= 0x20_0000,
        decreases d@.len(),
    {
        let m: usize = d.len();
        if m > 1 && (m as i64) > pp && d[m - 1] == '0' {
            let _ = d.pop();
        } else {
            proof {
                assert(strip_trailing_zeros(d@, pp as int) == d@);
            }
            break ;
        }
    }
    if d.len() == 0 {
        return subchars_all(cs);
    }
    let r = layout_digits(neg, &d, pp);
    proof {
        assert(r@ == expand_positional(cs@));
    }
    r
}

/// The value of up to three digits stays below a thousand.
proof fn lemma_digits_val_bound(s: Seq<char>, i: int, j: int)
    requires
        0 <= i <= j <= s.len(),
        j - i <= 3,
        forall|t: int| i <= t < j ==> is_digit(#[trigger] s[t]),
    ensures
        0 <= digits_val(s, i, j) <= if j - i == 0 {
            0int
        } else if j - i == 1 {
            9int
        } else if j - i == 2 {
            99int
        } else {
            999int
        },
    decreases j - i,
{
    if i < j {
        lemma_digits_val_bound(s, i, j - 1);
    }
}

/// Copies a span of characters.
fn subrange_chars(cs: &Vec<char>, a: usize, b: usize) -> (r: Vec<char>)
    requires
        a <= b <= cs@.len(),
    ensures
        r@ == cs@.subrange(a as int, b as int),
{
    let mut out: Vec<char> = Vec::new();
    let mut i: usize = a;
    while i < b
        invariant
            a <= i <= b <= cs@.len(),
            out@ == cs@.subrange(a as int, i as int),
        decreases b - i,
    {
        proof {
            assert(cs@.subrange(a as int, i + 1) == cs@.subrange(a as int, i as int).push(
                cs@[i as int],
            ));
        }
        out.push(cs[i]);
        i = i + 1;
    }
    out
}

fn subchars_all(cs: &Vec<char>) -> (r: Vec<char>)
    ensures
        r@ == cs@,
{
    let mut out: Vec<char> = Vec::new();
    let n: usize = cs.len();
    let mut i: usize = 0;
    while i < n
        invariant
            n == cs@.len(),
            i <= n,
            out@ == cs@.take(i as int),
        decreases n - i,
    {
        proof {
            assert(cs@.take(i + 1) == cs@.take(i as int).push(cs@[i as int]));
        }
        out.push(cs[i]);
        i = i + 1;
    }
    proof {
        assert(cs@.take(n as int) == cs@);
    }
    out
}

/// Rust's grammar for `f64::from_str`: an optional sign, then one of the
/// words `inf`, `infinity`, `nan` (case-insensitive) or a decimal number
/// `Digits '.'? Digits? Exp?` or `'.' Digits Exp?`, where
/// `Exp ::= ('e'|'E') Sign? Digits`.
pub open spec fn is_float_literal(s: Seq<char>) -> bool {
    let p: int = if s.len() > 0 && (s[0] == '+' || s[0] == '-') {
        1int
    } else {
        0int
    };
    if p >= s.len() {
        false
    } else if eq_ci(s.skip(p), seq!['i', 'n', 'f']) || eq_ci(
        s.skip(p),
        seq!['i', 'n', 'f', 'i', 'n', 'i', 't', 'y'],
    ) || eq_ci(s.skip(p), seq!['n', 'a', 'n']) {
        true
    } else {
        is_decimal_number(s, p)
    }
}

/// A float literal of the plain decimal form: no `inf` or `nan` word.
pub open spec fn is_decimal_literal(s: Seq<char>) -> bool {
    let p: int = if s.len() > 0 && (s[0] == '+' || s[0] == '-') {
        1int
    } else {
        0int
    };
    p < s.len() && is_decimal_number(s, p)
}

/// The decimal-number part of the float grammar, starting at `p`.
pub open spec fn is_decimal_number(s: Seq<char>, p: int) -> bool {
    let q = digit_run_end(s, p);
    if q == p {
        // No integer digits: a dot with at least one fraction digit is
        // required.
        if p < s.len() && s[p] == '.' {
            let q2 = digit_run_end(s, p + 1);
            q2 > p + 1 && exp_ok(s, q2)
        } else {
            false
        }
    } else {
        if q < s.len() && s[q] == '.' {
            exp_ok(s, digit_run_end(s, q + 1))
        } else {
            exp_ok(s, q)
        }
    }
}

/// From position `q` the string either ends or holds a well-formed
/// exponent part.
pub open spec fn exp_ok(s: Seq<char>, q: int) -> bool {
    if q == s.len() {
        true
    } else if s[q] == 'e' || s[q] == 'E' {
        let r: int = if q + 1 < s.len() && (s[q + 1] == '+' || s[q + 1] == '-') {
            q + 2
        } else {
            q + 1
        };
        digit_run_end(s, r) == s.len() && r < s.len()
    } else {
        false
    }
}

fn check_exp_ok(cs: &Vec<char>, q: usize) -> (r: bool)
    requires
        q <= cs@.len(),
    ensures
        r == exp_ok(cs@, q as int),
{
    if q == cs.len() {
        true
    } else if cs[q] == 'e' || cs[q] == 'E' {
        let r: usize = if q + 1 < cs.len() && (cs[q + 1] == '+' || cs[q + 1] == '-') {
            q + 2
        } else {
            q + 1
        };
        let e: usize = find_digit_run_end(cs, r);
        e == cs.len() && r < cs.len()
    } else {
        false
    }
}

pub fn check_float_literal(cs: &Vec<char>) -> (r: bool)
    ensures
        r == is_float_literal(cs@),
{
    let p: usize = if cs.len() > 0 && (cs[0] == '+' || cs[0] == '-') {
        1
    } else {
        0
    };
    if p >= cs.len() {
        return false;
    }
    let winf: Vec<char> = vec!['i', 'n', 'f'];
    let winfinity: Vec<char> = vec!['i', 'n', 'f', 'i', 'n', 'i', 't', 'y'];
    let wnan: Vec<char> = vec!['n', 'a', 'n'];
    proof {
        assert(winf@ == seq!['i', 'n', 'f']);
        assert(winfinity@ == seq!['i', 'n', 'f', 'i', 'n', 'i', 't', 'y']);
        assert(wnan@ == seq!['n', 'a', 'n']);
    }
    if chars_eq_ci(cs, p, &winf) || chars_eq_ci(cs, p, &winfinity) || chars_eq_ci(cs, p, &wnan) {
        return true;
    }
    let q: usize = find_digit_run_end(cs, p);
    if q == p {
        if p < cs.len() && cs[p] == '.' {
            let q2: usize = find_digit_run_end(cs, p + 1);
            q2 > p + 1 && check_exp_ok(cs, q2)
        } else {
            false
        }
    } else {
        if q < cs.len() && cs[q] == '.' {
            let q2: usize = find_digit_run_end(cs, q + 1);
            check_exp_ok(cs, q2)
        } else {
            check_exp_ok(cs, q)
        }
    }
}

} // verus!
