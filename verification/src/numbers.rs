//! Recognising number literals the way Rust's `f64` parser accepts them.

use vstd::prelude::*;

verus! {

pub open spec fn is_digit(c: char) -> bool {
    '0' <= c && c <= '9'
}

pub open spec fn is_sign(c: char) -> bool {
    c == '+' || c == '-'
}

pub open spec fn is_exp_marker(c: char) -> bool {
    c == 'e' || c == 'E'
}

/// The lower-case form of an ASCII letter; other characters stay.
pub open spec fn ascii_lower(c: char) -> char {
    if 'A' <= c && c <= 'Z' {
        ((c as u32) + 32) as char
    } else {
        c
    }
}

/// `s` spells `word` (given in lower case) ignoring ASCII case.
pub open spec fn spells_ignoring_case(s: Seq<char>, word: Seq<char>) -> bool {
    s.len() == word.len() && forall|i: int| 0 <= i < s.len() ==> ascii_lower(s[i]) == word[i]
}

/// Digits with at most one decimal point, and at least one digit.
pub open spec fn is_mantissa(s: Seq<char>) -> bool {
    &&& forall|i: int| 0 <= i < s.len() ==> is_digit(s[i]) || s[i] == '.'
    &&& forall|i: int, j: int| 0 <= i < j < s.len() && s[i] == '.' ==> s[j] != '.'
    &&& exists|i: int| 0 <= i < s.len() && is_digit(s[i])
}

/// Only decimal digits.
pub open spec fn all_digits(s: Seq<char>) -> bool {
    forall|i: int| 0 <= i < s.len() ==> is_digit(s[i])
}

/// At least one digit, after an optional sign.
pub open spec fn is_signed_digits(r: Seq<char>) -> bool {
    if r.len() > 0 && is_sign(r[0]) {
        r.len() > 1 && all_digits(r.skip(1))
    } else {
        r.len() > 0 && all_digits(r)
    }
}

/// An exponent: `e` or `E`, an optional sign and at least one digit.
pub open spec fn is_exponent(s: Seq<char>) -> bool {
    &&& s.len() >= 2
    &&& is_exp_marker(s[0])
    &&& is_signed_digits(s.skip(1))
}

/// A mantissa, optionally followed by an exponent.
pub open spec fn is_decimal_number(s: Seq<char>) -> bool {
    ||| (forall|i: int| 0 <= i < s.len() ==> !is_exp_marker(s[i])) && is_mantissa(s)
    ||| exists|k: int|
        0 <= k < s.len() && is_exp_marker(#[trigger] s[k]) && is_mantissa(s.take(k)) && is_exponent(
            s.skip(k),
        )
}

/// The literals Rust's `f64` parser accepts: an optional sign, then `inf`,
/// `infinity` or `nan` in any case, or a decimal number. Every literal the
/// `i64` parser accepts is among them.
pub open spec fn is_number_literal(s: Seq<char>) -> bool {
    let body = if s.len() > 0 && is_sign(s[0]) {
        s.skip(1)
    } else {
        s
    };
    ||| spells_ignoring_case(body, seq!['i', 'n', 'f'])
    ||| spells_ignoring_case(body, seq!['i', 'n', 'f', 'i', 'n', 'i', 't', 'y'])
    ||| spells_ignoring_case(body, seq!['n', 'a', 'n'])
    ||| is_decimal_number(body)
}

fn lower_equals(c: char, w: char) -> (r: bool)
    ensures
        r == (ascii_lower(c) == w),
{
    if 'A' <= c && c <= 'Z' {
        let code = (c as u32) + 32;
        proof {
            let l = code as char;
            assert(l as u32 == code);
            assert(ascii_lower(c) == l);
        }
        code == (w as u32)
    } else {
        c == w
    }
}

fn spells(s: &[char], from: usize, word: &[char]) -> (r: bool)
    requires
        from <= s@.len(),
    ensures
        r == spells_ignoring_case(s@.skip(from as int), word@),
{
    let n = s.len();
    if n - from != word.len() {
        return false;
    }
    let mut i: usize = 0;
    while i < word.len()
        invariant
            from <= s@.len(),
            s@.len() - from == word@.len(),
            from + word@.len() == s@.len(),
            n == s@.len(),
            i <= word@.len(),
            forall|j: int| 0 <= j < i ==> ascii_lower(s@.skip(from as int)[j]) == word@[j],
        decreases word@.len() - i,
    {
        if !lower_equals(s[from + i], word[i]) {
            return false;
        }
        i = i + 1;
    }
    true
}

fn mantissa_ok(s: &[char], from: usize, to: usize) -> (r: bool)
    requires
        from <= to <= s@.len(),
    ensures
        r == is_mantissa(s@.subrange(from as int, to as int)),
{
    let ghost m = s@.subrange(from as int, to as int);
    let mut seen_dot = false;
    let mut seen_digit = false;
    let mut i: usize = from;
    while i < to
        invariant
            from <= i <= to <= s@.len(),
            m == s@.subrange(from as int, to as int),
            forall|k: int| 0 <= k < i - from ==> is_digit(m[k]) || m[k] == '.',
            forall|a: int, b: int| 0 <= a < b < i - from && m[a] == '.' ==> m[b] != '.',
            seen_dot <==> exists|k: int| 0 <= k < i - from && m[k] == '.',
            seen_digit <==> exists|k: int| 0 <= k < i - from && is_digit(m[k]),
        decreases to - i,
    {
        let c = s[i];
        assert(m[i - from] == c);
        if '0' <= c && c <= '9' {
            seen_digit = true;
        } else if c == '.' {
            if seen_dot {
                proof {
                    let k = choose|k: int| 0 <= k < i - from && m[k] == '.';
                    assert(m[k] == '.' && m[i - from] == '.');
                }
                return false;
            }
            seen_dot = true;
        } else {
            return false;
        }
        i = i + 1;
    }
    seen_digit
}

fn exponent_ok(s: &[char], from: usize) -> (r: bool)
    requires
        from <= s@.len(),
    ensures
        r == is_exponent(s@.skip(from as int)),
{
    let ghost e = s@.skip(from as int);
    if s.len() - from < 2 {
        return false;
    }
    if !(s[from] == 'e' || s[from] == 'E') {
        return false;
    }
    let mut i: usize = from + 1;
    if s[i] == '+' || s[i] == '-' {
        i = i + 1;
    }
    let start = i;
    proof {
        let r = e.skip(1);
        if is_sign(r[0]) {
            assert(r.skip(1) =~= s@.skip(start as int));
        } else {
            assert(r =~= s@.skip(start as int));
        }
    }
    if i >= s.len() {
        return false;
    }
    while i < s.len()
        invariant
            start <= i <= s@.len(),
            from < start,
            e == s@.skip(from as int),
            e.len() >= 2,
            is_exp_marker(e[0]),
            is_sign(e.skip(1)[0]) ==> s@.skip(start as int) == e.skip(1).skip(1),
            !is_sign(e.skip(1)[0]) ==> s@.skip(start as int) == e.skip(1),
            forall|k: int| start <= k < i ==> is_digit(s@[k]),
        decreases s@.len() - i,
    {
        if !('0' <= s[i] && s[i] <= '9') {
            proof {
                let d = s@.skip(start as int);
                assert(d[i - start] == s@[i as int]);
                assert(!all_digits(d));
            }
            return false;
        }
        i = i + 1;
    }
    true
}

/// Whether `s` is a number literal that Rust's integer or float parser accepts.
pub fn is_number_text(s: &[char]) -> (r: bool)
    ensures
        r == is_number_literal(s@),
{
    let from: usize = if s.len() > 0 && (s[0] == '+' || s[0] == '-') {
        1
    } else {
        0
    };
    let ghost body = s@.skip(from as int);
    proof {
        assert(body =~= (if s@.len() > 0 && is_sign(s@[0]) {
            s@.skip(1)
        } else {
            s@
        }));
    }
    let inf = ['i', 'n', 'f'];
    let infinity = ['i', 'n', 'f', 'i', 'n', 'i', 't', 'y'];
    let nan = ['n', 'a', 'n'];
    proof {
        assert(inf@ =~= seq!['i', 'n', 'f']);
        assert(infinity@ =~= seq!['i', 'n', 'f', 'i', 'n', 'i', 't', 'y']);
        assert(nan@ =~= seq!['n', 'a', 'n']);
    }
    if spells(s, from, &inf) || spells(s, from, &infinity) || spells(s, from, &nan) {
        return true;
    }
    // The exponent marker, if any, ends the mantissa.
    let mut k: usize = from;
    while k < s.len() && !(s[k] == 'e' || s[k] == 'E')
        invariant
            from <= k <= s@.len(),
            forall|j: int| from <= j < k ==> !is_exp_marker(s@[j]),
        decreases s@.len() - k,
    {
        k = k + 1;
    }
    if k == s.len() {
        let r = mantissa_ok(s, from, k);
        proof {
            assert(s@.subrange(from as int, k as int) =~= body);
            if !r {
                assert forall|q: int|
                    0 <= q < body.len() && is_exp_marker(#[trigger] body[q]) implies !(is_mantissa(
                    body.take(q),
                ) && is_exponent(body.skip(q))) by {
                    assert(body[q] == s@[from + q]);
                }
            }
        }
        r
    } else {
        let m = mantissa_ok(s, from, k);
        let e = exponent_ok(s, k);
        proof {
            let kk = k - from;
            assert(body[kk as int] == s@[k as int]);
            assert(body.take(kk as int) =~= s@.subrange(from as int, k as int));
            assert(body.skip(kk as int) =~= s@.skip(k as int));
            if !(m && e) {
                assert forall|q: int|
                    0 <= q < body.len() && is_exp_marker(#[trigger] body[q]) implies !(is_mantissa(
                    body.take(q),
                ) && is_exponent(body.skip(q))) by {
                    assert(body[q] == s@[from + q]);
                    if q > kk {
                        assert(body.take(q)[kk as int] == body[kk as int]);
                    } else if q < kk {
                        assert(!is_exp_marker(s@[from + q]));
                    }
                }
                assert(!(forall|i: int| 0 <= i < body.len() ==> !is_exp_marker(body[i])));
            }
        }
        m && e
    }
}

} // verus!
