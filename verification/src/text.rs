//! Character-sequence utilities: conversions between `String` and
//! `Vec<char>`, whitespace trimming, decimal digit rendering, padding,
//! and substring replacement. All higher-level text synthesis (SQL
//! statements, report formats, log lines) is built on these.

use vstd::prelude::*;

verus! {

/// Relies on `str::chars` of std: iterating a string slice yields exactly
/// the characters of its view, in order.
#[verifier::external_body]
pub(crate) fn str_chars(s: &str) -> (r: Vec<char>)
    ensures
        r@ == s@,
{
    s.chars().collect()
}

/// Relies on `String: FromIterator<char>` of std: collecting characters
/// builds the string whose view is exactly that character sequence.
#[verifier::external_body]
pub(crate) fn chars_string(v: &Vec<char>) -> (r: String)
    ensures
        r@ == v@,
{
    v.iter().collect()
}

/// The characters stripped by trimming: the Unicode white-space set,
/// as `str::trim` strips it.
pub open spec fn is_space(c: char) -> bool {
    (9 <= c as u32 && c as u32 <= 13) || c as u32 == 32 || c as u32 == 0x85 || c as u32 == 0xA0
        || c as u32 == 0x1680 || (0x2000 <= c as u32 && c as u32 <= 0x200A) || c as u32 == 0x2028
        || c as u32 == 0x2029 || c as u32 == 0x202F || c as u32 == 0x205F || c as u32 == 0x3000
}

pub fn is_space_char(c: char) -> (r: bool)
    ensures
        r == is_space(c),
{
    let u = c as u32;
    (9 <= u && u <= 13) || u == 32 || u == 0x85 || u == 0xA0 || u == 0x1680 || (0x2000 <= u && u
        <= 0x200A) || u == 0x2028 || u == 0x2029 || u == 0x202F || u == 0x205F || u == 0x3000
}

pub open spec fn trim_front(s: Seq<char>) -> Seq<char>
    decreases s.len(),
{
    if s.len() > 0 && is_space(s[0]) {
        trim_front(s.drop_first())
    } else {
        s
    }
}

pub open spec fn trim_back(s: Seq<char>) -> Seq<char>
    decreases s.len(),
{
    if s.len() > 0 && is_space(s[s.len() - 1]) {
        trim_back(s.drop_last())
    } else {
        s
    }
}

/// Leading and trailing blanks removed, as `str::trim` does.
pub open spec fn spec_trim(s: Seq<char>) -> Seq<char> {
    trim_back(trim_front(s))
}

proof fn lemma_trim_front_skip(s: Seq<char>, lo: int)
    requires
        0 <= lo <= s.len(),
        forall|k: int| 0 <= k < lo ==> is_space(s[k]),
        lo == s.len() || !is_space(s[lo]),
    ensures
        trim_front(s) == s.subrange(lo, s.len() as int),
    decreases lo,
{
    if lo == 0 {
        assert(s.subrange(0, s.len() as int) =~= s);
    } else {
        assert(is_space(s[0]));
        assert(s.len() > 0);
        let t = s.drop_first();
        assert(t =~= s.subrange(1, s.len() as int));
        lemma_trim_front_skip(t, lo - 1);
        assert(t.subrange(lo - 1, t.len() as int) =~= s.subrange(lo, s.len() as int));
    }
}

proof fn lemma_trim_back_take(s: Seq<char>, hi: int)
    requires
        0 <= hi <= s.len(),
        forall|k: int| hi <= k < s.len() ==> is_space(s[k]),
        hi == 0 || !is_space(s[hi - 1]),
    ensures
        trim_back(s) == s.subrange(0, hi),
    decreases s.len(),
{
    if s.len() > 0 && is_space(s[s.len() - 1]) {
        assert(hi < s.len());
        let t = s.drop_last();
        lemma_trim_back_take(t, hi);
        assert(t.subrange(0, hi) =~= s.subrange(0, hi));
    } else {
        assert(hi == s.len());
        assert(s.subrange(0, s.len() as int) =~= s);
    }
}

/// Removes leading and trailing blanks.
pub fn trim_chars(s: &Vec<char>) -> (r: Vec<char>)
    ensures
        r@ == spec_trim(s@),
{
    let n = s.len();
    let mut lo: usize = 0;
    while lo < n && is_space_char(s[lo])
        invariant
            0 <= lo <= n,
            n == s@.len(),
            forall|k: int| 0 <= k < lo ==> is_space(s@[k]),
        decreases n - lo,
    {
        lo = lo + 1;
    }
    let mut hi: usize = n;
    while hi > lo && is_space_char(s[hi - 1])
        invariant
            lo <= hi <= n,
            n == s@.len(),
            forall|k: int| 0 <= k < lo ==> is_space(s@[k]),
            lo == n || !is_space(s@[lo as int]),
            forall|k: int| hi <= k < n ==> is_space(s@[k]),
        decreases hi,
    {
        hi = hi - 1;
    }
    let mut r: Vec<char> = Vec::new();
    let mut i: usize = lo;
    while i < hi
        invariant
            lo <= i <= hi <= n,
            n == s@.len(),
            r@ =~= s@.subrange(lo as int, i as int),
        decreases hi - i,
    {
        r.push(s[i]);
        assert(r@ =~= s@.subrange(lo as int, i + 1));
        i = i + 1;
    }
    proof {
        lemma_trim_front_skip(s@, lo as int);
        let f = s@.subrange(lo as int, n as int);
        if hi == lo {
            lemma_trim_back_take(f, 0);
        } else {
            assert(!is_space(f[hi - lo - 1]));
            lemma_trim_back_take(f, hi - lo);
        }
        assert(f.subrange(0, hi - lo) =~= s@.subrange(lo as int, hi as int));
    }
    r
}

/// The decimal digit character for a value below ten.
pub open spec fn digit_char(d: int) -> char {
    if d == 0 {
        '0'
    } else if d == 1 {
        '1'
    } else if d == 2 {
        '2'
    } else if d == 3 {
        '3'
    } else if d == 4 {
        '4'
    } else if d == 5 {
        '5'
    } else if d == 6 {
        '6'
    } else if d == 7 {
        '7'
    } else if d == 8 {
        '8'
    } else {
        '9'
    }
}

/// Decimal digits of a non-negative number, most significant first.
pub open spec fn spec_digits(n: int) -> Seq<char>
    decreases n,
{
    if n <= 9 {
        seq![digit_char(if n < 0 { 0 } else { n })]
    } else {
        spec_digits(n / 10).push(digit_char(n % 10))
    }
}

fn digit_to_char(d: u64) -> (c: char)
    requires
        d < 10,
    ensures
        c == digit_char(d as int),
{
    if d == 0 {
        '0'
    } else if d == 1 {
        '1'
    } else if d == 2 {
        '2'
    } else if d == 3 {
        '3'
    } else if d == 4 {
        '4'
    } else if d == 5 {
        '5'
    } else if d == 6 {
        '6'
    } else if d == 7 {
        '7'
    } else if d == 8 {
        '8'
    } else {
        '9'
    }
}

/// Renders a number in decimal, most significant digit first.
pub fn u64_to_chars(n: u64) -> (r: Vec<char>)
    ensures
        r@ == spec_digits(n as int),
    decreases n,
{
    if n <= 9 {
        let mut r: Vec<char> = Vec::new();
        r.push(digit_to_char(n));
        assert(r@ =~= spec_digits(n as int));
        r
    } else {
        let mut r = u64_to_chars(n / 10);
        r.push(digit_to_char(n % 10));
        r
    }
}

/// A signed number in decimal: a minus sign and the digits of the
/// magnitude, or the digits alone.
pub open spec fn spec_int_text(i: int) -> Seq<char> {
    if i < 0 {
        seq!['-'] + spec_digits(-i)
    } else {
        spec_digits(i)
    }
}

/// Renders a signed number in decimal.
pub fn i64_to_chars(i: i64) -> (r: Vec<char>)
    ensures
        r@ == spec_int_text(i as int),
{
    if i < 0 {
        let m: u64 = (-(i + 1)) as u64 + 1;
        assert(m == -(i as int));
        let mut r: Vec<char> = Vec::new();
        r.push('-');
        let d = u64_to_chars(m);
        push_chars(&mut r, &d);
        proof {
            assert(r@ =~= seq!['-'] + spec_digits(m as int));
        }
        r
    } else {
        u64_to_chars(i as u64)
    }
}

/// `n` copies of the character `c`.
pub open spec fn spec_repeat(c: char, n: int) -> Seq<char>
    decreases n,
{
    if n <= 0 {
        Seq::empty()
    } else {
        spec_repeat(c, n - 1).push(c)
    }
}

/// A run of `n` copies of `c`.
pub fn repeat_char(c: char, n: usize) -> (r: Vec<char>)
    ensures
        r@ == spec_repeat(c, n as int),
{
    let mut r: Vec<char> = Vec::new();
    let mut i: usize = 0;
    while i < n
        invariant
            0 <= i <= n,
            r@ =~= spec_repeat(c, i as int),
        decreases n - i,
    {
        r.push(c);
        i = i + 1;
    }
    r
}

/// A copy of `s` left-padded with `fill` to at least `width` characters.
pub open spec fn spec_pad_left(s: Seq<char>, width: int, fill: char) -> Seq<char>
    decreases width - s.len(),
{
    if s.len() >= width {
        s
    } else {
        spec_pad_left(seq![fill] + s, width, fill)
    }
}

pub fn pad_left(s: &Vec<char>, width: usize, fill: char) -> (r: Vec<char>)
    ensures
        r@ == spec_pad_left(s@, width as int, fill),
{
    let mut pad: Vec<char> = Vec::new();
    let mut k: usize = s.len();
    while k < width
        invariant
            s@.len() <= k <= vstd::math::max(width as int, s@.len() as int),
            pad@.len() == k - s@.len(),
            forall|j: int| 0 <= j < pad@.len() ==> pad@[j] == fill,
            spec_pad_left(pad@ + s@, width as int, fill) == spec_pad_left(
                s@,
                width as int,
                fill,
            ),
        decreases width - k,
    {
        proof {
            assert(seq![fill] + (pad@ + s@) =~= (pad@.push(fill)) + s@);
        }
        pad.push(fill);
        k = k + 1;
    }
    let mut r = pad;
    let mut i: usize = 0;
    let ghost base = r@;
    while i < s.len()
        invariant
            0 <= i <= s@.len(),
            r@ =~= base + s@.subrange(0, i as int),
        decreases s@.len() - i,
    {
        r.push(s[i]);
        assert(r@ =~= base + s@.subrange(0, i + 1));
        i = i + 1;
    }
    proof {
        assert(base + s@.subrange(0, s@.len() as int) =~= base + s@);
    }
    r
}

/// A number rendered in decimal and zero-padded to at least `width` digits.
pub open spec fn spec_zero_pad(n: int, width: int) -> Seq<char> {
    spec_pad_left(spec_digits(n), width, '0')
}

pub fn u64_zero_pad(n: u64, width: usize) -> (r: Vec<char>)
    ensures
        r@ == spec_zero_pad(n as int, width as int),
{
    let d = u64_to_chars(n);
    pad_left(&d, width, '0')
}

/// Appends every character of `other` to `dst`.
pub fn push_chars(dst: &mut Vec<char>, other: &Vec<char>)
    ensures
        final(dst)@ == old(dst)@ + other@,
{
    let mut i: usize = 0;
    while i < other.len()
        invariant
            0 <= i <= other@.len(),
            dst@ =~= old(dst)@ + other@.subrange(0, i as int),
        decreases other@.len() - i,
    {
        dst.push(other[i]);
        assert(dst@ =~= old(dst)@ + other@.subrange(0, i + 1));
        i = i + 1;
    }
    proof {
        assert(old(dst)@ + other@.subrange(0, other@.len() as int) =~= old(dst)@ + other@);
    }
}

/// Appends every character of the string slice to `dst`.
pub fn push_str_chars(dst: &mut Vec<char>, other: &str)
    ensures
        final(dst)@ == old(dst)@ + other@,
{
    let cs = str_chars(other);
    push_chars(dst, &cs);
}

pub open spec fn is_digit(c: char) -> bool {
    '0' <= c && c <= '9'
}

pub open spec fn digit_val(c: char) -> int {
    c as int - '0' as int
}

pub open spec fn all_digits(s: Seq<char>) -> bool {
    forall|i: int| 0 <= i < s.len() ==> is_digit(s[i])
}

/// Numeric value of a digit run, most significant digit first.
pub open spec fn digits_val(s: Seq<char>) -> int
    decreases s.len(),
{
    if s.len() == 0 {
        0
    } else {
        digits_val(s.drop_last()) * 10 + digit_val(s.last())
    }
}

pub open spec fn pow10(n: nat) -> int
    decreases n,
{
    if n == 0 {
        1
    } else {
        10 * pow10((n - 1) as nat)
    }
}

pub proof fn lemma_digits_val_bound(s: Seq<char>)
    requires
        all_digits(s),
    ensures
        0 <= digits_val(s) < pow10(s.len()),
    decreases s.len(),
{
    if s.len() > 0 {
        assert(all_digits(s.drop_last())) by {
            assert(forall|i: int|
                0 <= i < s.len() - 1 ==> s.drop_last()[i] == s[i] && is_digit(s[i]));
        }
        lemma_digits_val_bound(s.drop_last());
        assert(is_digit(s.last()));
    }
}

/// The numeric value of a run of at most twelve decimal digits; `None`
/// when the text is empty or holds a non-digit.
pub fn parse_digits_u64(s: &Vec<char>) -> (r: Option<u64>)
    requires
        s@.len() <= 12,
    ensures
        match r {
            Some(v) => all_digits(s@) && s@.len() > 0 && v == digits_val(s@) && v < pow10(
                s@.len(),
            ),
            None => !(all_digits(s@) && s@.len() > 0),
        },
{
    if s.len() == 0 {
        return None;
    }
    let mut v: u64 = 0;
    let mut i: usize = 0;
    while i < s.len()
        invariant
            0 <= i <= s@.len() <= 12,
            all_digits(s@.subrange(0, i as int)),
            v == digits_val(s@.subrange(0, i as int)),
            v < pow10(i as nat),
        decreases s@.len() - i,
    {
        let c = s[i];
        if c < '0' || c > '9' {
            assert(!is_digit(s@[i as int]));
            return None;
        }
        let d: u64 = (c as u32 as u64) - ('0' as u32 as u64);
        proof {
            let pre = s@.subrange(0, i + 1);
            assert(pre.drop_last() =~= s@.subrange(0, i as int));
            assert(pre.last() == s@[i as int]);
            assert(digit_val(s@[i as int]) == d);
            reveal_with_fuel(pow10, 13);
            assert(pow10(i as nat) <= pow10(11));
            assert(pow10((i + 1) as nat) == 10 * pow10(i as nat));
        }
        v = v * 10 + d;
        i = i + 1;
        assert(all_digits(s@.subrange(0, i as int)));
    }
    proof {
        assert(s@.subrange(0, s@.len() as int) =~= s@);
    }
    Some(v)
}


/// Index of the first occurrence of `c` in `s`, or -1.
pub open spec fn find_char(s: Seq<char>, c: char) -> int
    decreases s.len(),
{
    if s.len() == 0 {
        -1
    } else if s[0] == c {
        0
    } else if find_char(s.drop_first(), c) < 0 {
        -1
    } else {
        1 + find_char(s.drop_first(), c)
    }
}

pub fn find_char_from(s: &Vec<char>, from: usize, c: char) -> (r: Option<usize>)
    requires
        from <= s@.len(),
    ensures
        match r {
            Some(i) => from <= i < s@.len() && find_char(s@.skip(from as int), c) == i - from,
            None => find_char(s@.skip(from as int), c) == -1,
        },
    decreases s@.len() - from,
{
    if from == s.len() {
        assert(s@.skip(from as int) =~= Seq::<char>::empty());
        return None;
    }
    let ghost tail = s@.skip(from as int);
    assert(tail[0] == s@[from as int]);
    if s[from] == c {
        return Some(from);
    }
    let r = find_char_from(s, from + 1, c);
    proof {
        assert(tail.drop_first() =~= s@.skip(from + 1));
    }
    match r {
        Some(i) => Some(i),
        None => None,
    }
}

pub fn subrange_chars(s: &Vec<char>, lo: usize, hi: usize) -> (r: Vec<char>)
    requires
        lo <= hi <= s@.len(),
    ensures
        r@ == s@.subrange(lo as int, hi as int),
{
    let mut r: Vec<char> = Vec::new();
    let mut i: usize = lo;
    while i < hi
        invariant
            lo <= i <= hi <= s@.len(),
            r@ =~= s@.subrange(lo as int, i as int),
        decreases hi - i,
    {
        r.push(s[i]);
        assert(r@ =~= s@.subrange(lo as int, i + 1));
        i = i + 1;
    }
    r
}

/// Whether `pat` occurs in `s` starting at position `at`.
pub open spec fn match_at(s: Seq<char>, pat: Seq<char>, at: int) -> bool {
    0 <= at && at + pat.len() <= s.len() && s.subrange(at, at + pat.len()) == pat
}

/// `s` with every non-overlapping occurrence of `pat` replaced by `rep`,
/// scanning left to right, as `str::replace` does. An empty pattern
/// replaces nothing.
pub open spec fn spec_replace(s: Seq<char>, pat: Seq<char>, rep: Seq<char>) -> Seq<char>
    decreases s.len(),
{
    if pat.len() == 0 || s.len() < pat.len() {
        s
    } else if s.subrange(0, pat.len() as int) == pat {
        rep + spec_replace(s.skip(pat.len() as int), pat, rep)
    } else {
        seq![s[0]] + spec_replace(s.drop_first(), pat, rep)
    }
}

/// Whether the characters of `pat` stand at position `i` of `s`.
fn matches_at(s: &Vec<char>, pat: &Vec<char>, i: usize) -> (r: bool)
    requires
        i + pat@.len() <= s@.len(),
    ensures
        r == match_at(s@, pat@, i as int),
{
    let mut k: usize = 0;
    while k < pat.len()
        invariant
            0 <= k <= pat@.len(),
            i + pat@.len() <= s@.len(),
            forall|j: int| 0 <= j < k ==> s@[i + j] == pat@[j],
        decreases pat@.len() - k,
    {
        let n: usize = s.len();
        assert(i + k < n);
        if s[i + k] != pat[k] {
            assert(s@.subrange(i as int, i + pat@.len())[k as int] != pat@[k as int]);
            return false;
        }
        k = k + 1;
    }
    proof {
        assert(s@.subrange(i as int, i + pat@.len()) =~= pat@);
    }
    true
}

/// Replaces every occurrence of `pat` in `s` by `rep`, left to right.
pub fn replace_chars(s: &Vec<char>, pat: &Vec<char>, rep: &Vec<char>) -> (r: Vec<char>)
    ensures
        r@ == spec_replace(s@, pat@, rep@),
{
    let mut r: Vec<char> = Vec::new();
    let mut i: usize = 0;
    if pat.len() == 0 {
        while i < s.len()
            invariant
                0 <= i <= s@.len(),
                r@ =~= s@.subrange(0, i as int),
            decreases s@.len() - i,
        {
            r.push(s[i]);
            assert(r@ =~= s@.subrange(0, i + 1));
            i = i + 1;
        }
        proof {
            assert(s@.subrange(0, s@.len() as int) =~= s@);
        }
        return r;
    }
    proof {
        assert(s@.skip(0) =~= s@);
        assert(r@ + spec_replace(s@, pat@, rep@) =~= spec_replace(s@, pat@, rep@));
    }
    while i < s.len()
        invariant
            0 <= i <= s@.len(),
            pat@.len() > 0,
            spec_replace(s@, pat@, rep@) == r@ + spec_replace(
                s@.skip(i as int),
                pat@,
                rep@,
            ),
        decreases s@.len() - i,
    {
        let ghost rest = s@.skip(i as int);
        if s.len() - i >= pat.len() && matches_at(s, pat, i) {
            proof {
                assert(rest.subrange(0, pat@.len() as int) =~= s@.subrange(
                    i as int,
                    i + pat@.len(),
                ));
                assert(rest.skip(pat@.len() as int) =~= s@.skip(i + pat@.len()));
            }
            push_chars(&mut r, rep);
            i = i + pat.len();
        } else {
            proof {
                if rest.len() >= pat@.len() {
                    assert(rest.subrange(0, pat@.len() as int) =~= s@.subrange(
                        i as int,
                        i + pat@.len(),
                    ));
                }
                assert(rest.drop_first() =~= s@.skip(i + 1));
                assert(seq![rest[0]] =~= seq![s@[i as int]]);
            }
            r.push(s[i]);
            i = i + 1;
        }
    }
    proof {
        assert(s@.skip(s@.len() as int) =~= Seq::<char>::empty());
        assert(r@ + Seq::<char>::empty() =~= r@);
    }
    r
}

} // verus!
