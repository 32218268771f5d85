//! Character-sequence helpers: UTF-8 widths, whitespace, case mapping and
//! conversions between `str` and `Vec<char>`.
use vstd::prelude::*;
use vstd::utf8::*;

verus! {

/// Number of UTF-8 bytes that encode the sequence.
pub open spec fn byte_len(s: Seq<char>) -> nat {
    encode_utf8(s).len()
}

/// Number of UTF-8 bytes that encode one character.
pub open spec fn char_width(c: char) -> nat {
    encode_scalar(c as u32).len()
}

pub proof fn lemma_encode_utf8_push(s: Seq<char>, c: char)
    ensures
        encode_utf8(s.push(c)) == encode_utf8(s) + encode_scalar(c as u32),
    decreases s.len(),
{
    if s.len() == 0 {
        assert(s.push(c).drop_first() =~= Seq::<char>::empty());
        assert(encode_utf8(Seq::<char>::empty()) =~= Seq::<u8>::empty());
        assert(encode_utf8(s) =~= Seq::<u8>::empty());
        assert(encode_utf8(s.push(c)) =~= encode_scalar(c as u32));
    } else {
        assert(s.push(c).drop_first() =~= s.drop_first().push(c));
        lemma_encode_utf8_push(s.drop_first(), c);
        assert(s.push(c)[0] == s[0]);
        assert(encode_utf8(s.push(c)) =~= encode_utf8(s) + encode_scalar(c as u32));
    }
}

pub proof fn lemma_encode_utf8_concat(a: Seq<char>, b: Seq<char>)
    ensures
        encode_utf8(a + b) == encode_utf8(a) + encode_utf8(b),
    decreases a.len(),
{
    if a.len() == 0 {
        assert(a + b =~= b);
        assert(encode_utf8(a) =~= Seq::<u8>::empty());
        assert(encode_utf8(a + b) =~= encode_utf8(a) + encode_utf8(b));
    } else {
        assert((a + b).drop_first() =~= a.drop_first() + b);
        assert((a + b)[0] == a[0]);
        lemma_encode_utf8_concat(a.drop_first(), b);
        assert(encode_utf8(a + b) =~= encode_utf8(a) + encode_utf8(b));
    }
}

/// Byte length of a concatenation is the sum of the byte lengths.
pub proof fn lemma_byte_len_concat(a: Seq<char>, b: Seq<char>)
    ensures
        byte_len(a + b) == byte_len(a) + byte_len(b),
{
    lemma_encode_utf8_concat(a, b);
}

/// Every character takes between one and four bytes.
pub proof fn lemma_char_width_bounds(c: char)
    ensures
        1 <= char_width(c) <= 4,
{
    char_is_scalar(c);
}

/// Characters take at least one byte each.
pub proof fn lemma_byte_len_at_least_len(s: Seq<char>)
    ensures
        s.len() <= byte_len(s),
    decreases s.len(),
{
    if s.len() > 0 {
        let p = s.drop_last();
        assert(p.push(s.last()) =~= s);
        lemma_encode_utf8_push(p, s.last());
        lemma_char_width_bounds(s.last());
        lemma_byte_len_at_least_len(p);
    }
}

/// A prefix never takes more bytes than the whole.
pub proof fn lemma_byte_len_prefix(s: Seq<char>, n: int)
    requires
        0 <= n <= s.len(),
    ensures
        byte_len(s.take(n)) <= byte_len(s),
{
    assert(s.take(n) + s.skip(n) =~= s);
    lemma_byte_len_concat(s.take(n), s.skip(n));
}

/// UTF-8 width of one character.
pub fn len_utf8(c: char) -> (n: usize)
    ensures
        n == char_width(c),
        1 <= n <= 4,
{
    proof {
        char_is_scalar(c);
    }
    let v = c as u32;
    if v <= 0x7f {
        1
    } else if v <= 0x7ff {
        2
    } else if v <= 0xffff {
        3
    } else {
        4
    }
}

/// The characters that Unicode gives the White_Space property.
pub open spec fn is_space_char(c: char) -> bool {
    ||| c == '\t' || c == '\n' || c == '\u{B}' || c == '\u{C}' || c == '\r'
    ||| c == ' ' || c == '\u{85}' || c == '\u{A0}' || c == '\u{1680}'
    ||| ('\u{2000}' <= c && c <= '\u{200A}')
    ||| c == '\u{2028}' || c == '\u{2029}' || c == '\u{202F}' || c == '\u{205F}'
    ||| c == '\u{3000}'
}

/// Whitespace test with the same answers as `char::is_whitespace`.
pub fn is_whitespace(c: char) -> (b: bool)
    ensures
        b == is_space_char(c),
{
    c == '\t' || c == '\n' || c == '\u{B}' || c == '\u{C}' || c == '\r' || c == ' ' || c
        == '\u{85}' || c == '\u{A0}' || c == '\u{1680}' || ('\u{2000}' <= c && c <= '\u{200A}')
        || c == '\u{2028}' || c == '\u{2029}' || c == '\u{202F}' || c == '\u{205F}' || c
        == '\u{3000}'
}

pub open spec fn is_ascii_digit_char(c: char) -> bool {
    '0' <= c && c <= '9'
}

pub open spec fn is_ascii_lower_char(c: char) -> bool {
    'a' <= c && c <= 'z'
}

pub open spec fn is_ascii_alpha_char(c: char) -> bool {
    ('a' <= c && c <= 'z') || ('A' <= c && c <= 'Z')
}

/// Result of `str::to_lowercase` on the given characters.
pub uninterp spec fn lowercase(s: Seq<char>) -> Seq<char>;

/// Result of `str::to_uppercase` on the given characters.
pub uninterp spec fn uppercase(s: Seq<char>) -> Seq<char>;

/// Result of `char::is_alphabetic`.
pub uninterp spec fn alphabetic(c: char) -> bool;

/// Result of `char::is_lowercase`.
pub uninterp spec fn lowercase_char(c: char) -> bool;

/// Result of `char::is_uppercase`.
pub uninterp spec fn uppercase_char(c: char) -> bool;

/// Calls `str::to_lowercase`; the contract names its result and states nothing
/// more of the Unicode case tables.
#[verifier::external_body]
pub(crate) fn to_lowercase(s: &str) -> (r: String)
    ensures
        r@ == lowercase(s@),
{
    s.to_lowercase()
}

/// Calls `str::to_uppercase`; the contract names its result and states nothing
/// more of the Unicode case tables.
#[verifier::external_body]
pub(crate) fn to_uppercase(s: &str) -> (r: String)
    ensures
        r@ == uppercase(s@),
{
    s.to_uppercase()
}

/// Calls `char::is_alphabetic`; the Unicode Alphabetic property is named, not stated.
#[verifier::external_body]
pub(crate) fn is_alphabetic(c: char) -> (b: bool)
    ensures
        b == alphabetic(c),
{
    c.is_alphabetic()
}

/// Calls `char::is_lowercase`; the Unicode Lowercase property is named, not stated.
#[verifier::external_body]
pub(crate) fn is_lowercase(c: char) -> (b: bool)
    ensures
        b == lowercase_char(c),
{
    c.is_lowercase()
}

/// Calls `char::is_uppercase`; the Unicode Uppercase property is named, not stated.
#[verifier::external_body]
pub(crate) fn is_uppercase(c: char) -> (b: bool)
    ensures
        b == uppercase_char(c),
{
    c.is_uppercase()
}

/// Calls `str::len`. A string slice never holds more than `isize::MAX` bytes,
/// so the count is the exact UTF-8 length of its characters.
#[verifier::external_body]
pub(crate) fn str_len(s: &str) -> (n: usize)
    ensures
        n == byte_len(s@),
{
    s.len()
}

/// Calls `String::push`, which appends one character.
#[verifier::external_body]
pub(crate) fn push_char(s: &mut String, c: char)
    ensures
        final(s)@ == old(s)@.push(c),
{
    s.push(c)
}

/// The views of a sequence of strings.
pub open spec fn texts(v: Seq<String>) -> Seq<Seq<char>> {
    v.map_values(|s: String| s@)
}

/// The characters of a string slice, in order.
pub fn to_chars(s: &str) -> (v: Vec<char>)
    ensures
        v@ == s@,
{
    let mut v: Vec<char> = Vec::new();
    for c in it: s.chars()
        invariant
            it.seq() == s@,
            v@ == it.seq().take(it.index() as int),
    {
        v.push(c);
    }
    assert(v@ =~= s@);
    v
}

/// A string holding the characters `v[from..to]`.
pub fn string_from(v: &[char], from: usize, to: usize) -> (s: String)
    requires
        from <= to <= v@.len(),
    ensures
        s@ == v@.subrange(from as int, to as int),
{
    let mut s = String::new();
    let mut i = from;
    while i < to
        invariant
            from <= i <= to <= v@.len(),
            s@ == v@.subrange(from as int, i as int),
        decreases to - i,
    {
        push_char(&mut s, v[i]);
        assert(v@.subrange(from as int, i + 1) =~= v@.subrange(from as int, i as int).push(v@[i as int]));
        i += 1;
    }
    s
}

/// Appends the characters `v[from..to]` to `s`.
pub fn append_chars(s: &mut String, v: &[char], from: usize, to: usize)
    requires
        from <= to <= v@.len(),
    ensures
        final(s)@ == old(s)@ + v@.subrange(from as int, to as int),
{
    let ghost start = s@;
    let mut i = from;
    while i < to
        invariant
            from <= i <= to <= v@.len(),
            s@ == start + v@.subrange(from as int, i as int),
        decreases to - i,
    {
        push_char(s, v[i]);
        assert(v@.subrange(from as int, i + 1) =~= v@.subrange(from as int, i as int).push(v@[i as int]));
        i += 1;
    }
}

/// The decimal digit for a value below ten.
pub open spec fn digit_char(d: nat) -> char {
    if d == 0 { '0' } else if d == 1 { '1' } else if d == 2 { '2' } else if d == 3 { '3' }
    else if d == 4 { '4' } else if d == 5 { '5' } else if d == 6 { '6' } else if d == 7 { '7' }
    else if d == 8 { '8' } else { '9' }
}

/// Decimal notation of a natural number, without leading zeros.
pub open spec fn decimal(n: nat) -> Seq<char>
    decreases n,
{
    if n < 10 {
        seq![digit_char(n)]
    } else {
        decimal(n / 10).push(digit_char(n % 10))
    }
}

fn digit(d: u64) -> (c: char)
    requires
        d < 10,
    ensures
        c == digit_char(d as nat),
{
    if d == 0 { '0' } else if d == 1 { '1' } else if d == 2 { '2' } else if d == 3 { '3' }
    else if d == 4 { '4' } else if d == 5 { '5' } else if d == 6 { '6' } else if d == 7 { '7' }
    else if d == 8 { '8' } else { '9' }
}

/// Appends the decimal notation of `n`.
pub fn push_decimal(s: &mut String, n: u64)
    ensures
        final(s)@ == old(s)@ + decimal(n as nat),
    decreases n,
{
    if n >= 10 {
        push_decimal(s, n / 10);
    }
    push_char(s, digit(n % 10));
    proof {
        if n < 10 {
            assert(n % 10 == n);
        }
    }
}

/// Decimal notation of `n`.
pub fn decimal_string(n: u64) -> (s: String)
    ensures
        s@ == decimal(n as nat),
{
    let mut s = String::new();
    push_decimal(&mut s, n);
    assert(s@ =~= decimal(n as nat));
    s
}

/// Whether `v[0..end]` ends with `pat`.
pub fn ends_with_at(v: &[char], end: usize, pat: &[char]) -> (b: bool)
    requires
        end <= v@.len(),
    ensures
        b == (pat@.len() <= end && v@.subrange(end - pat@.len(), end as int) == pat@),
{
    if pat.len() > end {
        return false;
    }
    let base = end - pat.len();
    let mut i: usize = 0;
    while i < pat.len()
        invariant
            pat@.len() <= end <= v@.len(),
            base == end - pat@.len(),
            i <= pat@.len(),
            forall|j: int| 0 <= j < i ==> v@[base + j] == pat@[j],
        decreases pat.len() - i,
    {
        if v[base + i] != pat[i] {
            assert(v@.subrange(base as int, end as int)[i as int] != pat@[i as int]);
            return false;
        }
        i += 1;
    }
    assert(v@.subrange(base as int, end as int) =~= pat@);
    true
}

/// UTF-8 byte length of `v[0..n]`.
pub fn prefix_bytes(v: &[char], n: usize) -> (b: usize)
    requires
        n <= v@.len(),
        byte_len(v@) <= usize::MAX,
    ensures
        b == byte_len(v@.take(n as int)),
{
    let mut total: usize = 0;
    let mut i: usize = 0;
    while i < n
        invariant
            i <= n <= v@.len(),
            byte_len(v@) <= usize::MAX,
            total == byte_len(v@.take(i as int)),
        decreases n - i,
    {
        proof {
            assert(v@.take(i + 1) =~= v@.take(i as int).push(v@[i as int]));
            lemma_encode_utf8_push(v@.take(i as int), v@[i as int]);
            lemma_byte_len_prefix(v@, i + 1);
        }
        total = total + len_utf8(v[i]);
        i += 1;
    }
    total
}


/// Whether two texts hold the same characters.
pub fn str_eq(a: &str, b: &str) -> (r: bool)
    ensures
        r == (a@ == b@),
{
    let x = to_chars(a);
    let y = to_chars(b);
    if x.len() != y.len() {
        return false;
    }
    let mut i: usize = 0;
    while i < x.len()
        invariant
            x@ == a@,
            y@ == b@,
            x@.len() == y@.len(),
            i <= x@.len(),
            forall|j: int| 0 <= j < i ==> x@[j] == y@[j],
        decreases x.len() - i,
    {
        if x[i] != y[i] {
            return false;
        }
        i += 1;
    }
    assert(x@ =~= y@);
    true
}

/// Whether `s` ends with `pat`.
pub open spec fn ends_with(s: Seq<char>, pat: Seq<char>) -> bool {
    pat.len() <= s.len() && s.subrange(s.len() - pat.len(), s.len() as int) == pat
}

pub fn str_ends_with(s: &str, pat: &str) -> (r: bool)
    ensures
        r == ends_with(s@, pat@),
{
    let v = to_chars(s);
    let p = to_chars(pat);
    ends_with_at(&v, v.len(), &p)
}

/// Index of the first character of `s` that is not whitespace, or `s.len()`.
pub open spec fn lead_ws(s: Seq<char>, i: int) -> int
    decreases s.len() - i,
{
    if i < s.len() && is_space_char(s[i]) {
        lead_ws(s, i + 1)
    } else {
        i
    }
}

/// End of `s[from..n]` without its trailing whitespace.
pub open spec fn trail_ws(s: Seq<char>, from: int, n: int) -> int
    decreases n - from,
{
    if n > from && is_space_char(s[n - 1]) {
        trail_ws(s, from, n - 1)
    } else {
        n
    }
}

/// `s` without leading and trailing whitespace, as `str::trim` gives it.
pub open spec fn trim_ws(s: Seq<char>) -> Seq<char> {
    let a = lead_ws(s, 0);
    s.subrange(a, trail_ws(s, a, s.len() as int))
}

proof fn lemma_lead_ws(s: Seq<char>, i: int)
    requires
        0 <= i <= s.len(),
    ensures
        i <= lead_ws(s, i) <= s.len(),
    decreases s.len() - i,
{
    if i < s.len() && is_space_char(s[i]) {
        lemma_lead_ws(s, i + 1);
    }
}

proof fn lemma_trail_ws(s: Seq<char>, from: int, n: int)
    requires
        0 <= from <= n <= s.len(),
    ensures
        from <= trail_ws(s, from, n) <= n,
    decreases n - from,
{
    if n > from && is_space_char(s[n - 1]) {
        lemma_trail_ws(s, from, n - 1);
    }
}

/// `s` with leading and trailing whitespace removed.
pub fn trim(s: &str) -> (r: String)
    ensures
        r@ == trim_ws(s@),
{
    let v = to_chars(s);
    let mut a: usize = 0;
    proof {
        lemma_lead_ws(v@, 0);
    }
    while a < v.len() && is_whitespace(v[a])
        invariant
            v@ == s@,
            a <= v@.len(),
            lead_ws(v@, a as int) == lead_ws(v@, 0),
        decreases v.len() - a,
    {
        a += 1;
    }
    let mut b: usize = v.len();
    while b > a && is_whitespace(v[b - 1])
        invariant
            v@ == s@,
            a <= b <= v@.len(),
            a == lead_ws(v@, 0),
            trail_ws(v@, a as int, b as int) == trail_ws(v@, a as int, v@.len() as int),
        decreases b - a,
    {
        b -= 1;
    }
    string_from(&v, a, b)
}

pub open spec fn is_digit(c: char) -> bool {
    '0' <= c && c <= '9'
}

/// The value of a run of decimal digits.
pub open spec fn digits_value(s: Seq<char>) -> int
    decreases s.len(),
{
    if s.len() == 0 {
        0
    } else {
        digits_value(s.drop_last()) * 10 + (s.last() as int - '0' as int)
    }
}

pub open spec fn all_digits(s: Seq<char>) -> bool {
    forall|i: int| 0 <= i < s.len() ==> is_digit(#[trigger] s[i])
}

/// What `i32::from_str` gives: an optional `+` or `-`, then one or more
/// decimal digits, within the range of `i32`.
pub open spec fn parsed_i32(s: Seq<char>) -> Option<i32> {
    let negative = s.len() > 0 && s[0] == '-';
    let digits = if s.len() > 0 && (s[0] == '-' || s[0] == '+') {
        s.skip(1)
    } else {
        s
    };
    let value = if negative {
        -digits_value(digits)
    } else {
        digits_value(digits)
    };
    if digits.len() > 0 && all_digits(digits) && i32::MIN <= value <= i32::MAX {
        Some(value as i32)
    } else {
        None
    }
}

proof fn lemma_digits_grow(s: Seq<char>, i: int)
    requires
        0 <= i <= s.len(),
        all_digits(s),
    ensures
        0 <= digits_value(s.take(i)) <= digits_value(s),
    decreases s.len() - i,
{
    if i < s.len() {
        lemma_digits_grow(s, i + 1);
        assert(s.take(i + 1).drop_last() =~= s.take(i));
        assert(is_digit(s[i]));
    } else {
        assert(s.take(i) =~= s);
        lemma_digits_nonneg(s);
    }
}

proof fn lemma_digits_nonneg(s: Seq<char>)
    requires
        all_digits(s),
    ensures
        digits_value(s) >= 0,
    decreases s.len(),
{
    if s.len() > 0 {
        assert(all_digits(s.drop_last()));
        lemma_digits_nonneg(s.drop_last());
        assert(is_digit(s[s.len() - 1]));
    }
}

/// Parses a decimal `i32` as `i32::from_str` does.
pub fn parse_i32(s: &str) -> (r: Option<i32>)
    ensures
        r == parsed_i32(s@),
{
    let v = to_chars(s);
    let n = v.len();
    let negative = n > 0 && v[0] == '-';
    let start: usize = if n > 0 && (v[0] == '-' || v[0] == '+') {
        1
    } else {
        0
    };
    let ghost digits = s@.skip(start as int);
    assert(digits == if s@.len() > 0 && (s@[0] == '-' || s@[0] == '+') {
        s@.skip(1)
    } else {
        s@
    });
    assert(negative == (s@.len() > 0 && s@[0] == '-'));
    if start >= n {
        assert(digits.len() == 0);
        return None;
    }
    let limit: i64 = if negative {
        2147483648
    } else {
        2147483647
    };
    let mut value: i64 = 0;
    let mut i: usize = start;
    while i < n
        invariant
            v@ == s@,
            n == v@.len(),
            start <= i <= n,
            digits == s@.skip(start as int),
            digits == if s@.len() > 0 && (s@[0] == '-' || s@[0] == '+') {
                s@.skip(1)
            } else {
                s@
            },
            negative == (s@.len() > 0 && s@[0] == '-'),
            all_digits(digits.take(i - start)),
            value == digits_value(digits.take(i - start)),
            0 <= value <= limit,
            limit == if negative { 2147483648i64 } else { 2147483647i64 },
        decreases n - i,
    {
        let c = v[i];
        assert(digits.take(i + 1 - start).drop_last() =~= digits.take(i - start));
        assert(digits[i - start] == c);
        if !('0' <= c && c <= '9') {
            assert(!is_digit(digits[i - start]));
            assert(!all_digits(digits));
            return None;
        }
        let d = (c as u32 - '0' as u32) as i64;
        if value > (limit - d) / 10 {
            proof {
                assert(all_digits(digits.take(i + 1 - start)));
                assert(digits_value(digits.take(i + 1 - start)) == value * 10 + d);
                assert(value * 10 + d > limit) by (nonlinear_arith)
                    requires
                        value > (limit - d) / 10,
                        0 <= d <= 9,
                        limit > 0,
                ;
                if all_digits(digits) {
                    lemma_digits_grow(digits, i + 1 - start);
                    assert(digits_value(digits) > limit);
                }
            }
            return None;
        }
        assert(value * 10 + d <= limit) by (nonlinear_arith)
            requires
                value <= (limit - d) / 10,
                0 <= d <= 9,
                limit > 0,
                value >= 0,
        ;
        value = value * 10 + d;
        i += 1;
    }
    assert(digits.take(n - start) =~= digits);
    assert(digits.len() > 0);
    if negative {
        Some((0 - value) as i32)
    } else {
        Some(value as i32)
    }
}

/// Whether `pat` occurs in `s` at `i`.
pub open spec fn occurs_at(s: Seq<char>, pat: Seq<char>, i: int) -> bool {
    0 <= i && i + pat.len() <= s.len() && s.subrange(i, i + pat.len()) == pat
}

pub fn occurs_at_exec(v: &Vec<char>, pat: &Vec<char>, i: usize) -> (b: bool)
    requires
        i <= v@.len(),
    ensures
        b == occurs_at(v@, pat@, i as int),
{
    if pat.len() > v.len() - i {
        return false;
    }
    let mut k: usize = 0;
    while k < pat.len()
        invariant
            i + pat@.len() <= v@.len() <= usize::MAX,
            k <= pat@.len(),
            forall|j: int| 0 <= j < k ==> v@[i + j] == pat@[j],
        decreases pat.len() - k,
    {
        if v[i + k] != pat[k] {
            assert(v@.subrange(i as int, i + pat@.len())[k as int] != pat@[k as int]);
            return false;
        }
        k += 1;
    }
    assert(v@.subrange(i as int, i + pat@.len()) =~= pat@);
    true
}

/// Whether `pat` occurs anywhere in `s`.
pub open spec fn contains_text(s: Seq<char>, pat: Seq<char>) -> bool {
    exists|i: int| occurs_at(s, pat, i)
}

/// Whether `pat` occurs in `s`, as `str::contains` answers.
pub fn str_contains(s: &str, pat: &str) -> (b: bool)
    ensures
        b == contains_text(s@, pat@),
{
    let v = to_chars(s);
    let p = to_chars(pat);
    if p.len() > v.len() {
        assert forall|i: int| !occurs_at(s@, pat@, i) by {}
        return false;
    }
    let last = v.len() - p.len();
    let mut i: usize = 0;
    while i < last
        invariant
            v@ == s@,
            p@ == pat@,
            last == v@.len() - p@.len(),
            i <= last,
            forall|j: int| 0 <= j < i ==> !occurs_at(s@, pat@, j),
        decreases last - i,
    {
        if occurs_at_exec(&v, &p, i) {
            return true;
        }
        i += 1;
    }
    let found = occurs_at_exec(&v, &p, last);
    assert forall|j: int| !found implies !occurs_at(s@, pat@, j) by {
        if 0 <= j < i {
        }
    }
    found
}

} // verus!
