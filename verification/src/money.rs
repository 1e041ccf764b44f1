//! Monetary amounts as fixed-point integers. An amount is carried in
//! micro-units (one millionth of a currency unit), which holds every
//! spreadsheet amount of up to six decimal places exactly and keeps all
//! arithmetic over the integers. Rounding to two decimal places is
//! half-away-from-zero. Rendering and parsing of plain decimal text is
//! parameterised by the decimal separator so that the same definitions
//! serve both point and comma localisation.

use vstd::prelude::*;

use crate::text::{
    digit_val,
    all_digits,
    digit_char,
    digits_val,
    is_digit,
    parse_digits_u64,
    pow10,
    spec_digits,
    spec_pad_left,
    spec_zero_pad,
    find_char,
    u64_to_chars,
    u64_zero_pad,
    push_chars,
};

verus! {

/// Micro-units per currency unit.
pub const MICROS_PER_UNIT: i64 = 1000000;

/// Micro-units per hundredth of a unit.
pub const MICROS_PER_CENT: i64 = 10000;

/// Amounts are kept below one million million units, so that every
/// intermediate product in rendering and parsing fits an `i64`.
pub const AMOUNT_LIMIT: i64 = 1000000000000000000;

/// Half-away-from-zero rounding of a micro-unit amount to cents.
pub open spec fn spec_round_to_cents(m: int) -> int {
    if m >= 0 {
        (m + 5000) / 10000
    } else {
        -(((-m) + 5000) / 10000)
    }
}

/// Rounds a micro-unit amount to cents, halves away from zero.
pub fn round_to_cents(m: i64) -> (r: i64)
    requires
        -AMOUNT_LIMIT < m < AMOUNT_LIMIT,
    ensures
        r == spec_round_to_cents(m as int),
        -AMOUNT_LIMIT < r < AMOUNT_LIMIT,
{
    proof {
        if m >= 0 {
            vstd::arithmetic::div_mod::lemma_div_is_ordered(
                m + 5000,
                AMOUNT_LIMIT + 4999,
                10000,
            );
        } else {
            vstd::arithmetic::div_mod::lemma_div_is_ordered(
                (-m) + 5000,
                AMOUNT_LIMIT + 4999,
                10000,
            );
        }
        vstd::arithmetic::div_mod::lemma_div_pos_is_pos(
            if m >= 0 { m + 5000 } else { (-m) + 5000 },
            10000,
        );
    }
    if m >= 0 {
        (m + 5000) / 10000
    } else {
        -(((-m) + 5000) / 10000)
    }
}

/// The trailing `'0'` characters removed.
pub open spec fn trim_zeros_back(s: Seq<char>) -> Seq<char>
    decreases s.len(),
{
    if s.len() > 0 && s.last() == '0' {
        trim_zeros_back(s.drop_last())
    } else {
        s
    }
}

/// The fraction block of a micro-unit amount: six zero-padded digits
/// with trailing zeros removed.
pub open spec fn frac6_text(fr: int) -> Seq<char> {
    trim_zeros_back(spec_zero_pad(fr, 6))
}

/// A micro-unit amount as decimal text: optional minus sign, the whole
/// part in decimal, and, when the fraction is non-zero, the separator
/// and the fraction digits with trailing zeros removed.
pub open spec fn spec_amount_text(m: int, sep: char) -> Seq<char> {
    let a = if m < 0 {
        -m
    } else {
        m
    };
    let ip = a / 1000000;
    let fr = a % 1000000;
    let base = if fr == 0 {
        spec_digits(ip)
    } else {
        spec_digits(ip) + seq![sep] + frac6_text(fr)
    };
    if m < 0 {
        seq!['-'] + base
    } else {
        base
    }
}

/// A cent amount as decimal text with exactly two fraction digits.
pub open spec fn spec_cents_text(c: int, sep: char) -> Seq<char> {
    let a = if c < 0 {
        -c
    } else {
        c
    };
    let base = spec_digits(a / 100) + seq![sep] + spec_zero_pad(a % 100, 2);
    if c < 0 {
        seq!['-'] + base
    } else {
        base
    }
}

fn trim_zeros_back_exec(s: &Vec<char>) -> (r: Vec<char>)
    ensures
        r@ == trim_zeros_back(s@),
{
    let mut hi: usize = s.len();
    assert(s@.subrange(0, s@.len() as int) =~= s@);
    while hi > 0 && s[hi - 1] == '0'
        invariant
            0 <= hi <= s@.len(),
            trim_zeros_back(s@) == trim_zeros_back(s@.subrange(0, hi as int)),
        decreases hi,
    {
        proof {
            let t = s@.subrange(0, hi as int);
            assert(t.last() == '0');
            assert(t.drop_last() =~= s@.subrange(0, hi - 1));
        }
        hi = hi - 1;
    }
    let mut r: Vec<char> = Vec::new();
    let mut i: usize = 0;
    while i < hi
        invariant
            0 <= i <= hi <= s@.len(),
            r@ =~= s@.subrange(0, i as int),
        decreases hi - i,
    {
        r.push(s[i]);
        assert(r@ =~= s@.subrange(0, i + 1));
        i = i + 1;
    }
    proof {
        let t = s@.subrange(0, hi as int);
        assert(hi == 0 || t.last() != '0');
        assert(trim_zeros_back(t) == t);
    }
    r
}

/// Renders a micro-unit amount as decimal text.
pub fn amount_chars(m: i64, sep: char) -> (r: Vec<char>)
    requires
        -AMOUNT_LIMIT < m < AMOUNT_LIMIT,
    ensures
        r@ == spec_amount_text(m as int, sep),
{
    let a: u64 = if m < 0 {
        (-m) as u64
    } else {
        m as u64
    };
    let ip: u64 = a / 1000000;
    let fr: u64 = a % 1000000;
    let mut r: Vec<char> = Vec::new();
    if m < 0 {
        r.push('-');
    }
    let ipd = u64_to_chars(ip);
    push_chars(&mut r, &ipd);
    if fr > 0 {
        r.push(sep);
        let padded = u64_zero_pad(fr, 6);
        let frd = trim_zeros_back_exec(&padded);
        push_chars(&mut r, &frd);
    }
    proof {
        assert(r@ =~= spec_amount_text(m as int, sep));
    }
    r
}

/// Renders a cent amount as decimal text with two fraction digits.
pub fn cents_chars(c: i64, sep: char) -> (r: Vec<char>)
    requires
        -AMOUNT_LIMIT < c < AMOUNT_LIMIT,
    ensures
        r@ == spec_cents_text(c as int, sep),
{
    let a: u64 = if c < 0 {
        (-c) as u64
    } else {
        c as u64
    };
    let mut r: Vec<char> = Vec::new();
    if c < 0 {
        r.push('-');
    }
    let ipd = u64_to_chars(a / 100);
    push_chars(&mut r, &ipd);
    r.push(sep);
    let frd = u64_zero_pad(a % 100, 2);
    push_chars(&mut r, &frd);
    proof {
        assert(r@ =~= spec_cents_text(c as int, sep));
    }
    r
}

/// Parses unsigned decimal text into micro-units: up to twelve whole
/// digits, optionally the separator and one to six fraction digits.
pub open spec fn spec_parse_unsigned(s: Seq<char>, sep: char) -> Option<int> {
    let dot = find_char(s, sep);
    if dot < 0 {
        if 1 <= s.len() <= 12 && all_digits(s) {
            Some(digits_val(s) * 1000000)
        } else {
            None
        }
    } else {
        let ip = s.take(dot);
        let fp = s.skip(dot + 1);
        if 1 <= ip.len() <= 12 && all_digits(ip) && 1 <= fp.len() <= 6 && all_digits(fp) {
            Some(digits_val(ip) * 1000000 + digits_val(fp) * pow10((6 - fp.len()) as nat))
        } else {
            None
        }
    }
}

/// Parses decimal text into micro-units: an optional minus sign
/// followed by unsigned decimal text.
pub open spec fn spec_parse_amount(s: Seq<char>, sep: char) -> Option<int> {
    if s.len() > 0 && s[0] == '-' {
        match spec_parse_unsigned(s.drop_first(), sep) {
            Some(v) => Some(-v),
            None => None,
        }
    } else {
        spec_parse_unsigned(s, sep)
    }
}

fn find_sep(s: &Vec<char>, from: usize, sep: char) -> (r: Option<usize>)
    requires
        from <= s@.len(),
    ensures
        match r {
            Some(i) => from <= i < s@.len() && find_char(s@.skip(from as int), sep) == i - from,
            None => find_char(s@.skip(from as int), sep) == -1,
        },
    decreases s@.len() - from,
{
    if from == s.len() {
        assert(s@.skip(from as int) =~= Seq::<char>::empty());
        return None;
    }
    let ghost tail = s@.skip(from as int);
    assert(tail[0] == s@[from as int]);
    if s[from] == sep {
        return Some(from);
    }
    let r = find_sep(s, from + 1, sep);
    proof {
        assert(tail.drop_first() =~= s@.skip(from + 1));
    }
    r
}

fn subrange_vec(s: &Vec<char>, lo: usize, hi: usize) -> (r: Vec<char>)
    requires
        lo <= hi <= s@.len(),
    ensures
        r@ == s@.subrange(lo as int, hi as int),
{
    let mut r: Vec<char> = Vec::new();
    let mut i: usize = lo;
    while i < hi
        invariant
            lo <= i <= hi <= s@.len(),
            r@ =~= s@.subrange(lo as int, i as int),
        decreases hi - i,
    {
        r.push(s[i]);
        assert(r@ =~= s@.subrange(lo as int, i + 1));
        i = i + 1;
    }
    r
}

fn parse_unsigned(s: &Vec<char>, sep: char) -> (r: Option<i64>)
    ensures
        match r {
            Some(v) => spec_parse_unsigned(s@, sep) == Some(v as int) && 0 <= v < AMOUNT_LIMIT,
            None => spec_parse_unsigned(s@, sep) is None,
        },
{
    proof {
        assert(s@.skip(0) =~= s@);
        reveal_with_fuel(pow10, 13);
    }
    match find_sep(s, 0, sep) {
        None => {
            if s.len() < 1 || s.len() > 12 {
                return None;
            }
            match parse_digits_u64(s) {
                Some(v) => Some(v as i64 * 1000000),
                None => None,
            }
        },
        Some(dot) => {
            let n = s.len();
            assert(dot < n);
            let ip = subrange_vec(s, 0, dot);
            let fp = subrange_vec(s, dot + 1, n);
            proof {
                assert(s@.take(dot as int) =~= ip@);
                assert(s@.skip(dot + 1) =~= fp@);
            }
            if ip.len() < 1 || ip.len() > 12 || fp.len() < 1 || fp.len() > 6 {
                return None;
            }
            let iv = match parse_digits_u64(&ip) {
                Some(v) => v,
                None => {
                    return None;
                },
            };
            let fv = match parse_digits_u64(&fp) {
                Some(v) => v,
                None => {
                    return None;
                },
            };
            let mut scale: u64 = 1;
            let mut k: usize = fp.len();
            while k < 6
                invariant
                    1 <= fp@.len() <= k <= 6,
                    scale == pow10((k - fp@.len()) as nat),
                    scale <= 100000,
                decreases 6 - k,
            {
                proof {
                    assert(pow10((k + 1 - fp@.len()) as nat) == 10 * pow10(
                        (k - fp@.len()) as nat,
                    ));
                    reveal_with_fuel(pow10, 7);
                    assert(pow10((k + 1 - fp@.len()) as nat) <= 100000);
                }
                scale = scale * 10;
                k = k + 1;
            }
            assert(scale == pow10((6 - fp@.len()) as nat));
            proof {
                assert(fv < pow10(fp@.len()));
                assert(iv < pow10(12));
                assert(fv * scale < pow10(fp@.len()) * pow10((6 - fp@.len()) as nat)) by {
                    vstd::arithmetic::mul::lemma_mul_strict_inequality(
                        fv as int,
                        pow10(fp@.len()),
                        scale as int,
                    );
                };
                lemma_pow10_adds(fp@.len(), (6 - fp@.len()) as nat);
            }
            Some(iv as i64 * 1000000 + (fv * scale) as i64)
        },
    }
}

proof fn lemma_pow10_adds(a: nat, b: nat)
    ensures
        pow10(a) * pow10(b) == pow10(a + b),
        pow10(a) >= 1,
        pow10(b) >= 1,
    decreases a,
{
    if a == 0 {
        assert(pow10(b) >= 1) by {
            lemma_pow10_positive(b);
        }
        assert(pow10(a) == 1);
        assert(a + b == b);
        assert(1 * pow10(b) == pow10(b)) by {
            vstd::arithmetic::mul::lemma_mul_basics(pow10(b));
        };
    } else {
        lemma_pow10_adds((a - 1) as nat, b);
        let am1 = (a - 1) as nat;
        assert(pow10(am1) * pow10(b) == pow10(am1 + b));
        assert(am1 + b == a + b - 1);
        assert(pow10(a) == 10 * pow10(am1));
        assert(pow10(a + b) == 10 * pow10(am1 + b));
        assert(pow10(a) * pow10(b) == (10 * pow10(am1)) * pow10(b));
        assert((10 * pow10(am1)) * pow10(b) == 10 * (pow10(am1) * pow10(b))) by {
            vstd::arithmetic::mul::lemma_mul_is_associative(10, pow10(am1), pow10(b));
        };
        assert(10 * (pow10(am1) * pow10(b)) == 10 * pow10(am1 + b));
    }
}

proof fn lemma_pow10_positive(n: nat)
    ensures
        pow10(n) >= 1,
    decreases n,
{
    if n > 0 {
        lemma_pow10_positive((n - 1) as nat);
    }
}

proof fn lemma_digits_correct(n: int)
    requires
        n >= 0,
    ensures
        all_digits(spec_digits(n)),
        digits_val(spec_digits(n)) == n,
        spec_digits(n).len() >= 1,
    decreases n,
{
    if n <= 9 {
        assert(spec_digits(n) =~= seq![digit_char(n)]);
        assert(spec_digits(n).drop_last() =~= Seq::<char>::empty());
        assert(digits_val(Seq::<char>::empty()) == 0);
        assert(digit_val(digit_char(n)) == n);
    } else {
        lemma_digits_correct(n / 10);
        let s = spec_digits(n / 10);
        let c = digit_char(n % 10);
        assert(s.push(c).drop_last() =~= s);
        assert(s.push(c).last() == c);
        assert(forall|i: int| 0 <= i < s.len() ==> s.push(c)[i] == s[i]);
    }
}

proof fn lemma_digits_len(n: int, k: nat)
    requires
        0 <= n < pow10(k),
        k >= 1,
    ensures
        spec_digits(n).len() <= k,
    decreases n,
{
    if n <= 9 {
    } else {
        if k == 1 {
            assert(pow10(1) == 10 * pow10(0));
            assert(false);
        }
        assert(pow10(k) == 10 * pow10((k - 1) as nat));
        lemma_digits_len(n / 10, (k - 1) as nat);
    }
}

proof fn lemma_find_char_none(s: Seq<char>, c: char)
    requires
        forall|i: int| 0 <= i < s.len() ==> s[i] != c,
    ensures
        find_char(s, c) == -1,
    decreases s.len(),
{
    if s.len() > 0 {
        lemma_find_char_none(s.drop_first(), c);
    }
}

proof fn lemma_find_char_append(a: Seq<char>, c: char, b: Seq<char>)
    requires
        forall|i: int| 0 <= i < a.len() ==> a[i] != c,
    ensures
        find_char(a + seq![c] + b, c) == a.len(),
    decreases a.len(),
{
    let s = a + seq![c] + b;
    if a.len() == 0 {
        assert(s[0] == c);
    } else {
        assert(s[0] == a[0]);
        assert(s[0] != c);
        lemma_find_char_append(a.drop_first(), c, b);
        assert(s.drop_first() =~= a.drop_first() + seq![c] + b);
    }
}

proof fn lemma_digits_leading_zero(s: Seq<char>)
    ensures
        digits_val(seq!['0'] + s) == digits_val(s),
    decreases s.len(),
{
    let z = seq!['0'] + s;
    if s.len() == 0 {
        assert(z =~= seq!['0']);
        assert(z.drop_last() =~= Seq::<char>::empty());
        assert(digits_val(Seq::<char>::empty()) == 0);
        assert(digits_val(z) == digits_val(z.drop_last()) * 10 + digit_val(z.last()));
    } else {
        lemma_digits_leading_zero(s.drop_last());
        assert(z.drop_last() =~= seq!['0'] + s.drop_last());
        assert(z.last() == s.last());
        assert(digits_val(z) == digits_val(z.drop_last()) * 10 + digit_val(z.last()));
        assert(digits_val(s) == digits_val(s.drop_last()) * 10 + digit_val(s.last()));
    }
}

proof fn lemma_pad_zeros(s: Seq<char>, w: int)
    requires
        all_digits(s),
    ensures
        all_digits(spec_pad_left(s, w, '0')),
        digits_val(spec_pad_left(s, w, '0')) == digits_val(s),
        spec_pad_left(s, w, '0').len() == vstd::math::max(w, s.len() as int),
    decreases w - s.len(),
{
    if s.len() >= w {
    } else {
        let z = seq!['0'] + s;
        assert(all_digits(z)) by {
            assert(forall|i: int| 1 <= i < z.len() ==> z[i] == s[i - 1]);
            assert(is_digit(z[0]));
        }
        lemma_digits_leading_zero(s);
        lemma_pad_zeros(z, w);
    }
}

proof fn lemma_trim_zeros_value(s: Seq<char>)
    requires
        all_digits(s),
    ensures
        all_digits(trim_zeros_back(s)),
        trim_zeros_back(s).len() <= s.len(),
        digits_val(s) == digits_val(trim_zeros_back(s)) * pow10(
            (s.len() - trim_zeros_back(s).len()) as nat,
        ),
        digits_val(s) > 0 ==> trim_zeros_back(s).len() >= 1,
    decreases s.len(),
{
    let t = trim_zeros_back(s);
    if s.len() > 0 && s.last() == '0' {
        let d = s.drop_last();
        assert(all_digits(d)) by {
            assert(forall|i: int| 0 <= i < d.len() ==> d[i] == s[i]);
        }
        lemma_trim_zeros_value(d);
        let td = trim_zeros_back(d);
        assert(digits_val(s) == digits_val(d) * 10 + digit_val('0'));
        let k = (d.len() - td.len()) as nat;
        assert(digits_val(d) == digits_val(td) * pow10(k));
        assert(pow10(k + 1) == pow10(k) * 10) by {
            lemma_pow10_adds(k, 1);
            assert(pow10(1) == 10 * pow10(0));
        };
        assert((digits_val(td) * pow10(k)) * 10 == digits_val(td) * (pow10(k) * 10)) by {
            vstd::arithmetic::mul::lemma_mul_is_associative(
                digits_val(td),
                pow10(k),
                10,
            );
        };
    } else {
        assert(t == s);
        assert(pow10(0) == 1);
    }
}

proof fn lemma_unsigned_round_trip(a: int, sep: char)
    requires
        0 <= a < AMOUNT_LIMIT,
        !is_digit(sep),
    ensures
        spec_parse_unsigned(spec_amount_text(a, sep), sep) == Some(a),
{
    let ip = a / 1000000;
    let fr = a % 1000000;
    lemma_digits_correct(ip);
    let ipd = spec_digits(ip);
    assert(ip < pow10(12)) by {
        reveal_with_fuel(pow10, 13);
    };
    lemma_digits_len(ip, 12);
    assert(forall|i: int| 0 <= i < ipd.len() ==> ipd[i] != sep) by {
        assert(forall|i: int| 0 <= i < ipd.len() ==> is_digit(ipd[i]));
    }
    if fr == 0 {
        let s = spec_amount_text(a, sep);
        assert(s == ipd);
        lemma_find_char_none(ipd, sep);
        assert(spec_parse_unsigned(s, sep) == Some(digits_val(ipd) * 1000000));
        assert(digits_val(ipd) * 1000000 == a) by {
            assert(a == 1000000 * ip + fr);
        };
    } else {
        assert(fr < pow10(6)) by {
            reveal_with_fuel(pow10, 7);
        };
        lemma_digits_correct(fr);
        lemma_digits_len(fr, 6);
        let padded = spec_zero_pad(fr, 6);
        lemma_pad_zeros(spec_digits(fr), 6);
        assert(padded.len() == 6);
        assert(digits_val(padded) == fr);
        lemma_trim_zeros_value(padded);
        let fp = frac6_text(fr);
        assert(fp.len() >= 1);
        assert(fp.len() <= 6);
        let k = (6 - fp.len()) as nat;
        assert(digits_val(fp) * pow10(k) == fr);
        let s = spec_amount_text(a, sep);
        assert(s == ipd + seq![sep] + fp);
        lemma_find_char_append(ipd, sep, fp);
        let dot = find_char(s, sep);
        assert(dot == ipd.len());
        assert(s.take(dot) =~= ipd);
        assert(s.skip(dot + 1) =~= fp);
        assert(spec_parse_unsigned(s, sep) == Some(
            digits_val(ipd) * 1000000 + digits_val(fp) * pow10(k),
        ));
        assert(digits_val(ipd) * 1000000 + fr == a) by {
            assert(a == 1000000 * ip + fr);
        };
    }
}

/// Rendering a micro-unit amount and parsing the text back yields the
/// amount again, for either decimal separator.
pub proof fn lemma_amount_round_trip(m: int, sep: char)
    requires
        -AMOUNT_LIMIT < m < AMOUNT_LIMIT,
        !is_digit(sep),
        sep != '-',
    ensures
        spec_parse_amount(spec_amount_text(m, sep), sep) == Some(m),
{
    let s = spec_amount_text(m, sep);
    if m < 0 {
        lemma_unsigned_round_trip(-m, sep);
        let base = spec_amount_text(-m, sep);
        assert(s == seq!['-'] + base);
        assert(s[0] == '-');
        assert(s.drop_first() =~= base);
    } else {
        lemma_unsigned_round_trip(m, sep);
        assert(s.len() > 0 ==> s[0] != '-') by {
            let ipd = spec_digits(m / 1000000);
            lemma_digits_correct(m / 1000000);
            assert(is_digit(s[0])) by {
                assert(s[0] == ipd[0]);
            };
        }
    }
}

/// Parses decimal text into micro-units.
pub fn parse_amount(s: &Vec<char>, sep: char) -> (r: Option<i64>)
    ensures
        match r {
            Some(v) => spec_parse_amount(s@, sep) == Some(v as int) && -AMOUNT_LIMIT < v
                < AMOUNT_LIMIT,
            None => spec_parse_amount(s@, sep) is None,
        },
{
    if s.len() > 0 && s[0] == '-' {
        let rest = subrange_vec(s, 1, s.len());
        proof {
            assert(s@.drop_first() =~= rest@);
        }
        match parse_unsigned(&rest, sep) {
            Some(v) => Some(-v),
            None => None,
        }
    } else {
        parse_unsigned(s, sep)
    }
}


/// The decimal point localised to a comma.
pub open spec fn dot_to_comma(c: char) -> char {
    if c == '.' {
        ','
    } else {
        c
    }
}

proof fn lemma_digits_no_dot(s: Seq<char>)
    requires
        all_digits(s),
    ensures
        s.map_values(|c: char| dot_to_comma(c)) == s,
{
    let f = |c: char| dot_to_comma(c);
    assert(s.map_values(f) =~= s) by {
        assert(forall|i: int| 0 <= i < s.len() ==> is_digit(s[i]) && #[trigger] f(s[i]) == s[i]);
    }
}

/// Law: swapping the decimal point for a comma in rendered amount
/// text yields exactly the comma-rendered text, and that text parses
/// back to the amount — the delimited-text localisation loses
/// nothing.
pub proof fn lemma_amount_text_localisation(m: int)
    requires
        -AMOUNT_LIMIT < m < AMOUNT_LIMIT,
    ensures
        spec_amount_text(m, '.').map_values(|c: char| dot_to_comma(c)) == spec_amount_text(
            m,
            ',',
        ),
        spec_parse_amount(spec_amount_text(m, ','), ',') == Some(m),
{
    lemma_amount_round_trip(m, ',');
    let f = |c: char| dot_to_comma(c);
    let a = if m < 0 {
        -m
    } else {
        m
    };
    let ip = a / 1000000;
    let fr = a % 1000000;
    lemma_digits_correct(ip);
    lemma_digits_no_dot(spec_digits(ip));
    if fr == 0 {
        if m < 0 {
            let base = spec_digits(ip);
            assert((seq!['-'] + base).map_values(f) =~= seq!['-'] + base.map_values(f));
        }
    } else {
        assert(fr < pow10(6)) by {
            reveal_with_fuel(pow10, 7);
        };
        lemma_digits_correct(fr);
        lemma_digits_len(fr, 6);
        lemma_pad_zeros(spec_digits(fr), 6);
        lemma_trim_zeros_value(spec_zero_pad(fr, 6));
        let fp = frac6_text(fr);
        assert(all_digits(fp));
        lemma_digits_no_dot(fp);
        let dotted = spec_digits(ip) + seq!['.'] + fp;
        let commaed = spec_digits(ip) + seq![','] + fp;
        assert(dotted.map_values(f) =~= spec_digits(ip).map_values(f) + seq![','] + fp.map_values(
            f,
        ));
        assert(dotted.map_values(f) == commaed);
        if m < 0 {
            assert((seq!['-'] + dotted).map_values(f) =~= seq!['-'] + dotted.map_values(f));
        }
    }
}

} // verus!\n