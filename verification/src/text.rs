//! Character-level text handling shared by the header, URL and error code:
//! whitespace trimming, separator search, decimal numbers and string building.
use vstd::prelude::*;

verus! {

/// `String::push` appends one character.
pub assume_specification[ String::push ](s: &mut String, ch: char)
    ensures
        final(s)@ == old(s)@.push(ch),
;

/// Collects the characters of a string slice.
pub fn char_vec(s: &str) -> (r: Vec<char>)
    ensures
        r@ == s@,
{
    let mut out: Vec<char> = Vec::new();
    for c in it: s.chars()
        invariant
            out@ == it.seq().take(it.index() as int),
            it.seq() == s@,
    {
        out.push(c);
    }
    out
}

/// Appends the characters of a string slice to a `String`.
pub fn push_str(s: &mut String, t: &str)
    ensures
        final(s)@ == old(s)@ + t@,
{
    for c in it: t.chars()
        invariant
            s@ == old(s)@ + it.seq().take(it.index() as int),
            it.seq() == t@,
    {
        s.push(c);
    }
    assert(t@.take(t@.len() as int) =~= t@);
}

/// Whether two character sequences are equal.
pub fn chars_eq(a: &Vec<char>, b: &Vec<char>) -> (r: bool)
    ensures
        r == (a@ == b@),
{
    if a.len() != b.len() {
        return false;
    }
    let mut i: usize = 0;
    while i < a.len()
        invariant
            a.len() == b.len(),
            i <= a.len(),
            forall|j: int| 0 <= j < i ==> a@[j] == b@[j],
        decreases a.len() - i,
    {
        if a[i] != b[i] {
            return false;
        }
        i = i + 1;
    }
    assert(a@ =~= b@);
    true
}

/// Whether two string slices hold the same characters.
pub fn str_is(s: &str, t: &str) -> (r: bool)
    ensures
        r == (s@ == t@),
{
    let a = char_vec(s);
    let b = char_vec(t);
    chars_eq(&a, &b)
}

/// `s` without the `c` characters at its end, as `str::trim_end_matches`
/// with a character does.
pub open spec fn trim_end_char(s: Seq<char>, c: char) -> Seq<char>
    decreases s.len(),
{
    if s.len() > 0 && s.last() == c {
        trim_end_char(s.drop_last(), c)
    } else {
        s
    }
}

/// Trimming leaves no `c` at the end, keeps a prefix of `s`, and trimming
/// again changes nothing.
pub proof fn lemma_trim_end_char(s: Seq<char>, c: char)
    ensures
        trim_end_char(s, c).len() > 0 ==> trim_end_char(s, c).last() != c,
        trim_end_char(s, c).len() <= s.len(),
        trim_end_char(s, c) == s.take(trim_end_char(s, c).len() as int),
        trim_end_char(trim_end_char(s, c), c) == trim_end_char(s, c),
    decreases s.len(),
{
    if s.len() > 0 && s.last() == c {
        lemma_trim_end_char(s.drop_last(), c);
        let t = trim_end_char(s, c);
        assert(s.drop_last().take(t.len() as int) =~= s.take(t.len() as int));
    } else {
        assert(s.take(s.len() as int) =~= s);
    }
}

/// Removes every trailing `c` from `s`.
pub fn without_trailing(s: &str, c: char) -> (r: String)
    ensures
        r@ == trim_end_char(s@, c),
{
    let v = char_vec(s);
    let mut end = v.len();
    assert(v@.take(v@.len() as int) =~= v@);
    while end > 0 && v[end - 1] == c
        invariant
            end <= v@.len(),
            v@ == s@,
            trim_end_char(s@, c) == trim_end_char(v@.take(end as int), c),
        decreases end,
    {
        assert(v@.take(end as int).drop_last() =~= v@.take(end - 1));
        end = end - 1;
    }
    assert(v@.take(v@.len() as int) =~= v@);
    let mut out = String::new();
    let mut i: usize = 0;
    while i < end
        invariant
            i <= end <= v@.len(),
            out@ == v@.take(i as int),
        decreases end - i,
    {
        out.push(v[i]);
        i = i + 1;
        assert(out@ =~= v@.take(i as int));
    }
    out
}

/// Whether `s` begins with `prefix`.
pub fn starts_with(s: &Vec<char>, prefix: &str) -> (r: bool)
    ensures
        r == (prefix@.len() <= s@.len() && s@.take(prefix@.len() as int) == prefix@),
{
    let p = char_vec(prefix);
    if p.len() > s.len() {
        return false;
    }
    let mut i: usize = 0;
    while i < p.len()
        invariant
            p@ == prefix@,
            p.len() <= s.len(),
            i <= p.len(),
            forall|j: int| 0 <= j < i ==> s@[j] == p@[j],
        decreases p.len() - i,
    {
        if s[i] != p[i] {
            assert(s@.take(p@.len() as int)[i as int] != p@[i as int]);
            return false;
        }
        i = i + 1;
    }
    assert(s@.take(p@.len() as int) =~= p@);
    true
}

// ---------------------------------------------------------------------------
// Whitespace
// ---------------------------------------------------------------------------

/// The characters with the Unicode `White_Space` property.
pub open spec fn is_whitespace(c: char) -> bool {
    let u = c as u32;
    ||| (9 <= u && u <= 13)
    ||| u == 32
    ||| u == 0x85
    ||| u == 0xa0
    ||| u == 0x1680
    ||| (0x2000 <= u && u <= 0x200a)
    ||| u == 0x2028
    ||| u == 0x2029
    ||| u == 0x202f
    ||| u == 0x205f
    ||| u == 0x3000
}

/// `s` with its leading whitespace removed.
pub open spec fn trim_start(s: Seq<char>) -> Seq<char>
    decreases s.len(),
{
    if s.len() > 0 && is_whitespace(s[0]) {
        trim_start(s.drop_first())
    } else {
        s
    }
}

/// `s` with its trailing whitespace removed.
pub open spec fn trim_end(s: Seq<char>) -> Seq<char>
    decreases s.len(),
{
    if s.len() > 0 && is_whitespace(s.last()) {
        trim_end(s.drop_last())
    } else {
        s
    }
}

/// `s` with leading and trailing whitespace removed, as `str::trim` does.
pub open spec fn trim(s: Seq<char>) -> Seq<char> {
    trim_end(trim_start(s))
}

/// Whether `c` is whitespace.
pub fn is_whitespace_char(c: char) -> (r: bool)
    ensures
        r == is_whitespace(c),
{
    let u = c as u32;
    (9 <= u && u <= 13) || u == 32 || u == 0x85 || u == 0xa0 || u == 0x1680 || (0x2000 <= u && u
        <= 0x200a) || u == 0x2028 || u == 0x2029 || u == 0x202f || u == 0x205f || u == 0x3000
}

/// A sequence with no whitespace at either end is its own trim.
pub proof fn lemma_trim_no_edge_whitespace(s: Seq<char>)
    requires
        s.len() > 0 ==> !is_whitespace(s[0]) && !is_whitespace(s.last()),
    ensures
        trim(s) == s,
{
}

/// Finds the bounds of `v[lo..hi]` with whitespace trimmed at both ends.
pub fn trim_bounds(v: &Vec<char>, lo: usize, hi: usize) -> (r: (usize, usize))
    requires
        lo <= hi <= v@.len(),
    ensures
        lo <= r.0 <= r.1 <= hi,
        v@.subrange(r.0 as int, r.1 as int) == trim(v@.subrange(lo as int, hi as int)),
{
    let mut a = lo;
    while a < hi && is_whitespace_char(v[a])
        invariant
            lo <= a <= hi <= v@.len(),
            trim_start(v@.subrange(lo as int, hi as int)) == trim_start(
                v@.subrange(a as int, hi as int),
            ),
        decreases hi - a,
    {
        assert(v@.subrange(a as int, hi as int).drop_first() =~= v@.subrange(
            a + 1,
            hi as int,
        ));
        a = a + 1;
    }
    assert(trim_start(v@.subrange(a as int, hi as int)) == v@.subrange(a as int, hi as int));
    let mut b = hi;
    while b > a && is_whitespace_char(v[b - 1])
        invariant
            lo <= a <= b <= hi <= v@.len(),
            trim(v@.subrange(lo as int, hi as int)) == trim_end(v@.subrange(a as int, b as int)),
        decreases b - a,
    {
        assert(v@.subrange(a as int, b as int).drop_last() =~= v@.subrange(
            a as int,
            b - 1,
        ));
        b = b - 1;
    }
    (a, b)
}

// ---------------------------------------------------------------------------
// Separators
// ---------------------------------------------------------------------------

/// Index of the first `c` in `s`, or `-1` when there is none.
pub open spec fn index_of(s: Seq<char>, c: char) -> int
    decreases s.len(),
{
    if s.len() == 0 {
        -1
    } else if s[0] == c {
        0
    } else {
        let r = index_of(s.drop_first(), c);
        if r < 0 {
            -1
        } else {
            r + 1
        }
    }
}

/// `index_of` is the position of the first occurrence.
pub proof fn lemma_index_of(s: Seq<char>, c: char)
    ensures
        -1 <= index_of(s, c) < s.len(),
        index_of(s, c) >= 0 ==> s[index_of(s, c)] == c,
        forall|i: int| 0 <= i < s.len() && (index_of(s, c) < 0 || i < index_of(s, c)) ==> s[i] != c,
    decreases s.len(),
{
    if s.len() > 0 && s[0] != c {
        lemma_index_of(s.drop_first(), c);
        assert forall|i: int|
            0 <= i < s.len() && (index_of(s, c) < 0 || i < index_of(s, c)) implies s[i] != c by {
            if i > 0 {
                assert(s[i] == s.drop_first()[i - 1]);
            }
        }
    }
}

/// The first occurrence is determined by its defining property.
pub proof fn lemma_index_of_is(s: Seq<char>, c: char, k: int)
    requires
        -1 <= k < s.len(),
        k >= 0 ==> s[k] == c,
        forall|i: int| 0 <= i < s.len() && (k < 0 || i < k) ==> s[i] != c,
    ensures
        index_of(s, c) == k,
{
    lemma_index_of(s, c);
    let j = index_of(s, c);
    if j >= 0 && k >= 0 {
        assert(!(j < k));
        assert(!(k < j));
    } else if j >= 0 {
        assert(s[j] != c);
    } else if k >= 0 {
        assert(s[k] != c);
    }
}

/// Splits at every `sep`, as `str::split` with a character does.
pub open spec fn split_on(s: Seq<char>, sep: char) -> Seq<Seq<char>>
    decreases s.len(),
{
    let k = index_of(s, sep);
    if k < 0 {
        seq![s]
    } else {
        proof {
            lemma_index_of(s, sep);
        }
        seq![s.take(k)] + split_on(s.skip(k + 1), sep)
    }
}

/// Finds the first `c` in `v[lo..hi]`, as an absolute index.
pub fn find_char(v: &Vec<char>, c: char, lo: usize, hi: usize) -> (r: Option<usize>)
    requires
        lo <= hi <= v@.len(),
    ensures
        match r {
            Some(j) => lo <= j < hi && index_of(v@.subrange(lo as int, hi as int), c) == j - lo,
            None => index_of(v@.subrange(lo as int, hi as int), c) == -1,
        },
{
    let mut j = lo;
    while j < hi
        invariant
            lo <= j <= hi <= v@.len(),
            forall|i: int| lo <= i < j ==> v@[i] != c,
        decreases hi - j,
    {
        if v[j] == c {
            proof {
                lemma_index_of_is(v@.subrange(lo as int, hi as int), c, j - lo);
            }
            return Some(j);
        }
        j = j + 1;
    }
    proof {
        lemma_index_of_is(v@.subrange(lo as int, hi as int), c, -1);
    }
    None
}

// ---------------------------------------------------------------------------
// Decimal numbers
// ---------------------------------------------------------------------------

/// The ASCII decimal digits of `n`, most significant first, no leading zeros.
pub open spec fn decimal_digits(n: nat) -> Seq<u8>
    decreases n,
{
    if n < 10 {
        seq![(48 + n) as u8]
    } else {
        decimal_digits(n / 10).push((48 + n % 10) as u8)
    }
}

/// The decimal form of an integer, with a leading `-` when negative, as
/// `Display` writes it.
pub open spec fn decimal_text(n: int) -> Seq<u8> {
    if n < 0 {
        seq![45u8] + decimal_digits((-n) as nat)
    } else {
        decimal_digits(n as nat)
    }
}

/// ASCII bytes read as characters.
pub open spec fn ascii_chars(bs: Seq<u8>) -> Seq<char> {
    bs.map_values(|b: u8| b as char)
}

/// Whether `c` is an ASCII decimal digit.
pub open spec fn is_digit(c: char) -> bool {
    48 <= c as u32 && c as u32 <= 57
}

/// The value of a sequence of decimal digits.
pub open spec fn digits_value(s: Seq<char>) -> nat
    decreases s.len(),
{
    if s.len() == 0 {
        0
    } else {
        digits_value(s.drop_last()) * 10 + (s.last() as u32 - 48) as nat
    }
}

/// Whether `s` begins with a `+` or `-` sign.
pub open spec fn has_sign(s: Seq<char>) -> bool {
    s.len() > 0 && (s[0] == '-' || s[0] == '+')
}

/// `s` without its sign, if it has one.
pub open spec fn unsigned_part(s: Seq<char>) -> Seq<char> {
    if has_sign(s) {
        s.drop_first()
    } else {
        s
    }
}

/// Whether every character of `s` is a decimal digit.
pub open spec fn all_digits(s: Seq<char>) -> bool {
    forall|i: int| 0 <= i < s.len() ==> is_digit(#[trigger] s[i])
}

/// What `str::parse::<i64>` returns: an optional `+` or `-` sign followed by
/// at least one decimal digit and nothing else, whose value fits in an `i64`.
pub open spec fn parse_i64(s: Seq<char>) -> Option<i64> {
    let digits = unsigned_part(s);
    if digits.len() == 0 || !all_digits(digits) {
        None
    } else {
        let v: int = if s[0] == '-' {
            -(digits_value(digits) as int)
        } else {
            digits_value(digits) as int
        };
        if i64::MIN <= v && v <= i64::MAX {
            Some(v as i64)
        } else {
            None
        }
    }
}

/// Parses `v[lo..hi]` as `str::parse::<i64>` does.
pub fn parse_i64_range(v: &Vec<char>, lo: usize, hi: usize) -> (r: Option<i64>)
    requires
        lo <= hi <= v@.len(),
    ensures
        r == parse_i64(v@.subrange(lo as int, hi as int)),
{
    let ghost s = v@.subrange(lo as int, hi as int);
    if lo == hi {
        return None;
    }
    let neg = v[lo] == '-';
    let signed = neg || v[lo] == '+';
    let start = if signed {
        lo + 1
    } else {
        lo
    };
    let ghost digits = v@.subrange(start as int, hi as int);
    assert(digits =~= unsigned_part(s));
    if start == hi {
        return None;
    }
    // The magnitude of the smallest i64.
    let limit: u64 = 9223372036854775808;
    let mut acc: u64 = 0;
    let mut i = start;
    let mut overflow = false;
    while i < hi
        invariant
            lo <= start <= i <= hi <= v@.len(),
            limit == 9223372036854775808u64,
            s == v@.subrange(lo as int, hi as int),
            s.len() > 0,
            signed == (s[0] == '-' || s[0] == '+'),
            neg == (s[0] == '-'),
            start == (if signed { lo + 1 } else { lo as int }),
            digits == v@.subrange(start as int, hi as int),
            digits == unsigned_part(s),
            forall|j: int| start <= j < i ==> is_digit(v@[j]),
            !overflow ==> acc as nat == digits_value(v@.subrange(start as int, i as int)),
            !overflow ==> acc <= limit,
            overflow ==> digits_value(v@.subrange(start as int, i as int)) > limit,
        decreases hi - i,
    {
        let c = v[i];
        let u = c as u32;
        assert(digits[i - start] == v@[i as int]);
        if u < 48 || u > 57 {
            assert(!is_digit(digits[i - start]));
            assert(!all_digits(digits));
            return None;
        }
        let ghost prev = v@.subrange(start as int, i as int);
        assert(v@.subrange(start as int, i + 1).drop_last() =~= prev);
        if !overflow {
            let d = (u - 48) as u64;
            assert(d <= 9);
            if acc > (limit - d) / 10 {
                overflow = true;
                assert(acc * 10 + d > limit) by (nonlinear_arith)
                    requires
                        acc > (limit - d) / 10,
                        d <= 9,
                ;
            } else {
                assert(acc * 10 + d <= limit) by (nonlinear_arith)
                    requires
                        acc <= (limit - d) / 10,
                        d <= 9,
                ;
                acc = acc * 10 + d;
            }
        } else {
            assert(digits_value(v@.subrange(start as int, i + 1)) >= digits_value(prev) * 10)
                by (nonlinear_arith)
                requires
                    digits_value(v@.subrange(start as int, i + 1)) == digits_value(prev) * 10 + (u
                        - 48) as nat,
            ;
            assert(digits_value(prev) * 10 >= digits_value(prev)) by (nonlinear_arith);
        }
        i = i + 1;
    }
    assert(v@.subrange(start as int, hi as int) =~= digits);
    assert(all_digits(digits)) by {
        assert forall|j: int| 0 <= j < digits.len() implies is_digit(digits[j]) by {
            assert(digits[j] == v@[start + j]);
        }
    }
    if overflow {
        return None;
    }
    if neg {
        if acc == limit {
            Some(-9223372036854775807i64 - 1)
        } else {
            Some(-(acc as i64))
        }
    } else {
        if acc == limit {
            None
        } else {
            Some(acc as i64)
        }
    }
}

/// Appends the decimal digits of `n` to `out`.
pub fn push_decimal_bytes(out: &mut Vec<u8>, n: u64)
    ensures
        final(out)@ == old(out)@ + decimal_digits(n as nat),
    decreases n,
{
    if n >= 10 {
        push_decimal_bytes(out, n / 10);
    }
    out.push((48 + n % 10) as u8);
    assert(final(out)@ =~= old(out)@ + decimal_digits(n as nat));
}

/// Appends the decimal form of `n` to `out`, as `Display` writes it.
pub fn push_decimal_i64(out: &mut Vec<u8>, n: i64)
    ensures
        final(out)@ == old(out)@ + decimal_text(n as int),
{
    if n < 0 {
        out.push(45u8);
        let m: u64 = (0i128 - n as i128) as u64;
        push_decimal_bytes(out, m);
        assert(final(out)@ =~= old(out)@ + decimal_text(n as int));
    } else {
        push_decimal_bytes(out, n as u64);
    }
}

/// Appends the decimal digits of `n` to a `String`.
pub fn push_decimal_chars(s: &mut String, n: u64)
    ensures
        final(s)@ == old(s)@ + ascii_chars(decimal_digits(n as nat)),
    decreases n,
{
    if n >= 10 {
        push_decimal_chars(s, n / 10);
    }
    let d = (48 + n % 10) as u8;
    s.push(d as char);
    assert(final(s)@ =~= old(s)@ + ascii_chars(decimal_digits(n as nat)));
}

/// The decimal digits of `n` read back give `n`.
pub proof fn lemma_decimal_digits_value(n: nat)
    ensures
        forall|i: int|
            0 <= i < decimal_digits(n).len() ==> is_digit(ascii_chars(decimal_digits(n))[i]),
        decimal_digits(n).len() > 0,
        digits_value(ascii_chars(decimal_digits(n))) == n,
        ascii_chars(decimal_digits(n))[0] != '-',
        ascii_chars(decimal_digits(n))[0] != '+',
    decreases n,
{
    let d = decimal_digits(n);
    if n < 10 {
        let b = (48 + n) as u8;
        assert((b as char) as u32 == b as u32);
        assert(ascii_chars(d).last() == b as char);
        assert(ascii_chars(d).drop_last() =~= Seq::<char>::empty());
        assert(digits_value(ascii_chars(d)) == digits_value(Seq::<char>::empty()) * 10 + (b as u32 - 48) as nat);
    }
    if n >= 10 {
        lemma_decimal_digits_value(n / 10);
        let p = decimal_digits(n / 10);
        assert(ascii_chars(d).drop_last() =~= ascii_chars(p));
        let b = (48 + n % 10) as u8;
        assert(d.last() == b);
        assert(ascii_chars(d).last() == b as char);
        assert((b as char) as u32 == b as u32);
        assert(b as u32 - 48 == n % 10);
        assert(digits_value(ascii_chars(d)) == digits_value(ascii_chars(p)) * 10 + n % 10);
        assert(n == (n / 10) * 10 + n % 10);
        assert(ascii_chars(d)[0] == ascii_chars(p)[0]);
        assert forall|i: int| 0 <= i < d.len() implies is_digit(ascii_chars(d)[i]) by {
            if i < p.len() {
                assert(ascii_chars(d)[i] == ascii_chars(p)[i]);
            }
        }
    }
}

/// Parsing the decimal form of an `i64` gives it back.
pub proof fn lemma_parse_decimal_text(t: i64)
    ensures
        parse_i64(ascii_chars(decimal_text(t as int))) == Some(t),
{
    let n: nat = if t < 0 {
        (-t) as nat
    } else {
        t as nat
    };
    lemma_decimal_digits_value(n);
    let s = ascii_chars(decimal_text(t as int));
    let digits = ascii_chars(decimal_digits(n));
    if t < 0 {
        assert(s.drop_first() =~= digits);
        assert(s[0] == '-');
    } else {
        assert(s =~= digits);
    }
}

} // verus!
