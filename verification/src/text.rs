//! Character-level helpers on strings: equality, trimming, ASCII case
//! folding, integer parsing and formatting.

use vstd::prelude::*;
use vstd::string::*;

verus! {

// ---------------------------------------------------------------------------
// Equality and conversion
// ---------------------------------------------------------------------------

/// Whether two strings hold the same characters.
pub fn str_eq(a: &str, b: &str) -> (r: bool)
    ensures
        r == (a@ == b@),
{
    let n = a.unicode_len();
    if n != b.unicode_len() {
        return false;
    }
    let mut i: usize = 0;
    while i < n
        invariant
            n == a@.len(),
            n == b@.len(),
            i <= n,
            forall|j: int| 0 <= j < i ==> a@[j] == b@[j],
        decreases n - i,
    {
        if a.get_char(i) != b.get_char(i) {
            return false;
        }
        i = i + 1;
    }
    assert(a@ =~= b@);
    true
}

/// The characters of a string, in order.
pub fn to_chars(s: &str) -> (v: Vec<char>)
    ensures
        v@ == s@,
{
    let mut v: Vec<char> = Vec::new();
    for c in it: s.chars()
        invariant
            v@ == it.seq().take(it.index()),
    {
        v.push(c);
    }
    v
}

/// Whether `s` contains the character `c`.
pub fn str_contains_char(s: &str, c: char) -> (r: bool)
    ensures
        r == s@.contains(c),
{
    let v = to_chars(s);
    let mut i: usize = 0;
    while i < v.len()
        invariant
            v@ == s@,
            i <= v.len(),
            forall|j: int| 0 <= j < i ==> v@[j] != c,
        decreases v.len() - i,
    {
        if v[i] == c {
            assert(s@[i as int] == c);
            return true;
        }
        i = i + 1;
    }
    false
}

// ---------------------------------------------------------------------------
// Whitespace trimming (Unicode White_Space, as `str::trim` uses)
// ---------------------------------------------------------------------------

/// Unicode White_Space.
pub open spec fn is_ws(c: char) -> bool {
    ||| ('\u{9}' <= c && c <= '\u{d}')
    ||| c == ' '
    ||| c == '\u{85}'
    ||| c == '\u{a0}'
    ||| c == '\u{1680}'
    ||| ('\u{2000}' <= c && c <= '\u{200a}')
    ||| c == '\u{2028}'
    ||| c == '\u{2029}'
    ||| c == '\u{202f}'
    ||| c == '\u{205f}'
    ||| c == '\u{3000}'
}

/// Whether `c` is Unicode White_Space.
pub fn is_ws_exec(c: char) -> (r: bool)
    ensures
        r == is_ws(c),
{
    ('\u{9}' <= c && c <= '\u{d}') || c == ' ' || c == '\u{85}' || c == '\u{a0}' || c
        == '\u{1680}' || ('\u{2000}' <= c && c <= '\u{200a}') || c == '\u{2028}' || c
        == '\u{2029}' || c == '\u{202f}' || c == '\u{205f}' || c == '\u{3000}'
}

/// `s` without its leading whitespace.
pub open spec fn ltrim(s: Seq<char>) -> Seq<char>
    decreases s.len(),
{
    if s.len() > 0 && is_ws(s[0]) {
        ltrim(s.drop_first())
    } else {
        s
    }
}

/// `s` without its trailing whitespace.
pub open spec fn rtrim(s: Seq<char>) -> Seq<char>
    decreases s.len(),
{
    if s.len() > 0 && is_ws(s.last()) {
        rtrim(s.drop_last())
    } else {
        s
    }
}

/// `s` without leading and trailing whitespace.
pub open spec fn trim(s: Seq<char>) -> Seq<char> {
    rtrim(ltrim(s))
}

/// `s` without leading and trailing whitespace.
pub fn trim_str(s: &str) -> (r: &str)
    ensures
        r@ == trim(s@),
{
    let n = s.unicode_len();
    let mut i: usize = 0;
    assert(s@.subrange(0, n as int) =~= s@);
    while i < n && is_ws_exec(s.get_char(i))
        invariant
            n == s@.len(),
            i <= n,
            ltrim(s@) == ltrim(s@.subrange(i as int, n as int)),
        decreases n - i,
    {
        assert(s@.subrange(i as int, n as int).drop_first() =~= s@.subrange(i + 1, n as int));
        i = i + 1;
    }
    assert(ltrim(s@.subrange(i as int, n as int)) == s@.subrange(i as int, n as int));
    let mut j: usize = n;
    while j > i && is_ws_exec(s.get_char(j - 1))
        invariant
            n == s@.len(),
            i <= j <= n,
            trim(s@) == rtrim(s@.subrange(i as int, j as int)),
        decreases j - i,
    {
        assert(s@.subrange(i as int, j as int).drop_last() =~= s@.subrange(i as int, j - 1));
        j = j - 1;
    }
    s.substring_char(i, j)
}

// ---------------------------------------------------------------------------
// ASCII case folding
// ---------------------------------------------------------------------------

/// The code of `c` after ASCII lower-casing.
pub open spec fn lower_code(c: char) -> u32 {
    if 'A' <= c && c <= 'Z' {
        (c as u32 + 32) as u32
    } else {
        c as u32
    }
}

/// The code of `c` after ASCII upper-casing.
pub open spec fn upper_code(c: char) -> u32 {
    if 'a' <= c && c <= 'z' {
        (c as u32 - 32) as u32
    } else {
        c as u32
    }
}

/// ASCII case-insensitive equality.
pub open spec fn eq_ignore_case(a: Seq<char>, b: Seq<char>) -> bool {
    &&& a.len() == b.len()
    &&& forall|i: int| 0 <= i < a.len() ==> lower_code(#[trigger] a[i]) == lower_code(b[i])
}

/// Whether upper-casing `a` gives exactly `b`.
pub open spec fn upper_eq(a: Seq<char>, b: Seq<char>) -> bool {
    &&& a.len() == b.len()
    &&& forall|i: int| 0 <= i < a.len() ==> upper_code(#[trigger] a[i]) == b[i] as u32
}

fn lower_code_exec(c: char) -> (r: u32)
    ensures
        r == lower_code(c),
{
    if 'A' <= c && c <= 'Z' {
        c as u32 + 32
    } else {
        c as u32
    }
}

fn upper_code_exec(c: char) -> (r: u32)
    ensures
        r == upper_code(c),
{
    if 'a' <= c && c <= 'z' {
        c as u32 - 32
    } else {
        c as u32
    }
}

/// ASCII case-insensitive equality of two strings.
pub fn str_eq_ignore_case(a: &str, b: &str) -> (r: bool)
    ensures
        r == eq_ignore_case(a@, b@),
{
    let n = a.unicode_len();
    if n != b.unicode_len() {
        return false;
    }
    let mut i: usize = 0;
    while i < n
        invariant
            n == a@.len(),
            n == b@.len(),
            i <= n,
            forall|j: int| 0 <= j < i ==> lower_code(#[trigger] a@[j]) == lower_code(b@[j]),
        decreases n - i,
    {
        if lower_code_exec(a.get_char(i)) != lower_code_exec(b.get_char(i)) {
            return false;
        }
        i = i + 1;
    }
    true
}

/// Whether upper-casing `a` gives exactly `b`.
pub fn str_upper_eq(a: &str, b: &str) -> (r: bool)
    ensures
        r == upper_eq(a@, b@),
{
    let n = a.unicode_len();
    if n != b.unicode_len() {
        return false;
    }
    let mut i: usize = 0;
    while i < n
        invariant
            n == a@.len(),
            n == b@.len(),
            i <= n,
            forall|j: int| 0 <= j < i ==> upper_code(#[trigger] a@[j]) == b@[j] as u32,
        decreases n - i,
    {
        if upper_code_exec(a.get_char(i)) != b.get_char(i) as u32 {
            return false;
        }
        i = i + 1;
    }
    true
}

// ---------------------------------------------------------------------------
// Decimal integers, as `str::parse` reads them
// ---------------------------------------------------------------------------

/// An ASCII decimal digit.
pub open spec fn is_digit(c: char) -> bool {
    '0' <= c && c <= '9'
}

/// The value of a digit character.
pub open spec fn digit_val(c: char) -> nat {
    (c as u32 - '0' as u32) as nat
}

/// Whether every character of `s` is a digit.
pub open spec fn all_digits(s: Seq<char>) -> bool {
    forall|i: int| 0 <= i < s.len() ==> is_digit(#[trigger] s[i])
}

/// The value of a digit string, most significant digit first.
pub open spec fn digits_value(s: Seq<char>) -> nat
    decreases s.len(),
{
    if s.len() == 0 {
        0
    } else {
        digits_value(s.drop_last()) * 10 + digit_val(s.last())
    }
}

/// `s` without one leading `+`.
pub open spec fn strip_plus(s: Seq<char>) -> Seq<char> {
    if s.len() > 0 && s[0] == '+' {
        s.drop_first()
    } else {
        s
    }
}

/// What `str::parse::<u32>` returns for `s`, `None` for an error.
pub open spec fn parse_u32_spec(s: Seq<char>) -> Option<u32> {
    let d = strip_plus(s);
    if d.len() > 0 && all_digits(d) && digits_value(d) <= u32::MAX {
        Some(digits_value(d) as u32)
    } else {
        None
    }
}

/// What `str::parse::<i32>` returns for `s`, `None` for an error.
pub open spec fn parse_i32_spec(s: Seq<char>) -> Option<i32> {
    if s.len() > 0 && s[0] == '-' {
        let d = s.drop_first();
        if d.len() > 0 && all_digits(d) && digits_value(d) <= 0x8000_0000 {
            Some((0 - digits_value(d)) as i32)
        } else {
            None
        }
    } else {
        let d = strip_plus(s);
        if d.len() > 0 && all_digits(d) && digits_value(d) <= i32::MAX {
            Some(digits_value(d) as i32)
        } else {
            None
        }
    }
}

proof fn lemma_digits_value_prefix(s: Seq<char>, k: int)
    requires
        all_digits(s),
        0 <= k <= s.len(),
    ensures
        digits_value(s.take(k)) <= digits_value(s),
    decreases s.len(),
{
    if k < s.len() {
        let t = s.drop_last();
        assert(t.take(k) =~= s.take(k));
        assert(all_digits(t));
        lemma_digits_value_prefix(t, k);
    } else {
        assert(s.take(k) =~= s);
    }
}

/// The value of the digits `v[start..]` when they are all digits and
/// the value is at most `limit`.
fn parse_digits(v: &Vec<char>, start: usize, limit: u64) -> (r: Option<u64>)
    requires
        start <= v.len(),
        limit <= 0x1_0000_0000,
    ensures
        match r {
            Some(x) => all_digits(v@.subrange(start as int, v.len() as int)) && x == digits_value(
                v@.subrange(start as int, v.len() as int),
            ) && x <= limit,
            None => !(all_digits(v@.subrange(start as int, v.len() as int)) && digits_value(
                v@.subrange(start as int, v.len() as int),
            ) <= limit),
        },
{
    let ghost full = v@.subrange(start as int, v.len() as int);
    let mut acc: u64 = 0;
    let mut i: usize = start;
    while i < v.len()
        invariant
            start <= i <= v.len(),
            full == v@.subrange(start as int, v.len() as int),
            limit <= 0x1_0000_0000,
            all_digits(v@.subrange(start as int, i as int)),
            acc == digits_value(v@.subrange(start as int, i as int)),
            acc <= limit,
        decreases v.len() - i,
    {
        let c = v[i];
        if !('0' <= c && c <= '9') {
            assert(full[i - start] == c);
            return None;
        }
        let d = (c as u32 - '0' as u32) as u64;
        let next = acc * 10 + d;
        proof {
            let p = v@.subrange(start as int, i + 1);
            assert(p.drop_last() =~= v@.subrange(start as int, i as int));
            assert(all_digits(p));
            assert(digits_value(p) == next);
            assert(full.take(i + 1 - start) =~= p);
        }
        if next > limit {
            proof {
                if all_digits(full) {
                    lemma_digits_value_prefix(full, i + 1 - start);
                }
            }
            return None;
        }
        acc = next;
        i = i + 1;
    }
    Some(acc)
}

/// `str::parse::<u32>` on a string.
pub fn parse_u32(s: &str) -> (r: Option<u32>)
    ensures
        r == parse_u32_spec(s@),
{
    let v = to_chars(s);
    let start: usize = if v.len() > 0 && v[0] == '+' {
        1
    } else {
        0
    };
    assert(strip_plus(s@) =~= v@.subrange(start as int, v.len() as int));
    if start >= v.len() {
        return None;
    }
    match parse_digits(&v, start, 0xFFFF_FFFF) {
        Some(x) => Some(x as u32),
        None => None,
    }
}

/// `str::parse::<i32>` on a string.
pub fn parse_i32(s: &str) -> (r: Option<i32>)
    ensures
        r == parse_i32_spec(s@),
{
    let v = to_chars(s);
    if v.len() > 0 && v[0] == '-' {
        assert(s@.drop_first() =~= v@.subrange(1, v.len() as int));
        if v.len() == 1 {
            return None;
        }
        match parse_digits(&v, 1, 0x8000_0000) {
            Some(x) => Some((0 - (x as i64)) as i32),
            None => None,
        }
    } else {
        let start: usize = if v.len() > 0 && v[0] == '+' {
            1
        } else {
            0
        };
        assert(strip_plus(s@) =~= v@.subrange(start as int, v.len() as int));
        if start >= v.len() {
            return None;
        }
        match parse_digits(&v, start, 0x7FFF_FFFF) {
            Some(x) => Some(x as i32),
            None => None,
        }
    }
}

// ---------------------------------------------------------------------------
// Hexadecimal and decimal formatting
// ---------------------------------------------------------------------------

/// The upper-case hex digit of `d` (`d < 16`).
pub open spec fn hex_char(d: nat) -> char {
    if d < 10 {
        ('0' as u32 + d) as char
    } else {
        ('A' as u32 + d - 10) as char
    }
}

/// The upper-case hex digits of `v`, without leading zeros ("0" for 0).
pub open spec fn hex_digits(v: nat) -> Seq<char>
    decreases v,
{
    if v < 16 {
        seq![hex_char(v)]
    } else {
        hex_digits(v / 16).push(hex_char(v % 16))
    }
}

/// The decimal digits of `v`, without leading zeros ("0" for 0).
pub open spec fn dec_digits(v: nat) -> Seq<char>
    decreases v,
{
    if v < 10 {
        seq![('0' as u32 + v) as char]
    } else {
        dec_digits(v / 10).push(('0' as u32 + v % 10) as char)
    }
}

/// `format!("{:04X}", v)`: upper-case hex, zero-padded to four digits.
pub open spec fn hex4(v: nat) -> Seq<char> {
    if v < 0x10 {
        seq!['0', '0', '0'] + hex_digits(v)
    } else if v < 0x100 {
        seq!['0', '0'] + hex_digits(v)
    } else if v < 0x1000 {
        seq!['0'] + hex_digits(v)
    } else {
        hex_digits(v)
    }
}

/// `format!("#{:06X}", v)` for `v < 2^24`.
pub open spec fn hash_hex6(v: nat) -> Seq<char> {
    seq!['#'] + if v < 0x10 {
        seq!['0', '0', '0', '0', '0'] + hex_digits(v)
    } else if v < 0x100 {
        seq!['0', '0', '0', '0'] + hex_digits(v)
    } else if v < 0x1000 {
        seq!['0', '0', '0'] + hex_digits(v)
    } else if v < 0x1_0000 {
        seq!['0', '0'] + hex_digits(v)
    } else if v < 0x10_0000 {
        seq!['0'] + hex_digits(v)
    } else {
        hex_digits(v)
    }
}

fn digit_str(d: u32) -> (r: &'static str)
    requires
        d < 16,
    ensures
        r@ == seq![hex_char(d as nat)],
{
    proof {
        reveal_strlit("0");
        reveal_strlit("1");
        reveal_strlit("2");
        reveal_strlit("3");
        reveal_strlit("4");
        reveal_strlit("5");
        reveal_strlit("6");
        reveal_strlit("7");
        reveal_strlit("8");
        reveal_strlit("9");
        reveal_strlit("A");
        reveal_strlit("B");
        reveal_strlit("C");
        reveal_strlit("D");
        reveal_strlit("E");
        reveal_strlit("F");
    }
    let r = match d {
        0 => "0",
        1 => "1",
        2 => "2",
        3 => "3",
        4 => "4",
        5 => "5",
        6 => "6",
        7 => "7",
        8 => "8",
        9 => "9",
        10 => "A",
        11 => "B",
        12 => "C",
        13 => "D",
        14 => "E",
        _ => "F",
    };
    assert(r@ =~= seq![hex_char(d as nat)]);
    r
}

/// Append the upper-case hex digits of `v` to `s`.
pub fn push_hex(s: &mut String, v: u32)
    ensures
        final(s)@ == old(s)@ + hex_digits(v as nat),
    decreases v,
{
    if v >= 16 {
        push_hex(s, v / 16);
    }
    s.append(digit_str(v % 16));
    assert(final(s)@ =~= old(s)@ + hex_digits(v as nat));
}

/// Append the decimal digits of `v` to `s`.
pub fn push_dec(s: &mut String, v: u32)
    ensures
        final(s)@ == old(s)@ + dec_digits(v as nat),
    decreases v,
{
    if v >= 10 {
        push_dec(s, v / 10);
    }
    s.append(digit_str(v % 10));
    assert(final(s)@ =~= old(s)@ + dec_digits(v as nat));
}

/// `format!("#{:06X}", color & 0xFF_FFFF)`.
pub fn color_hex(color: u32) -> (r: String)
    ensures
        r@ == hash_hex6((color % 0x100_0000) as nat),
{
    let v = color % 0x100_0000;
    let mut s = String::from_str("#");
    proof {
        reveal_strlit("#");
    }
    if v < 0x10 {
        s.append("00000");
    } else if v < 0x100 {
        s.append("0000");
    } else if v < 0x1000 {
        s.append("000");
    } else if v < 0x1_0000 {
        s.append("00");
    } else if v < 0x10_0000 {
        s.append("0");
    }
    proof {
        reveal_strlit("00000");
        reveal_strlit("0000");
        reveal_strlit("000");
        reveal_strlit("00");
        reveal_strlit("0");
    }
    push_hex(&mut s, v);
    assert(s@ =~= hash_hex6(v as nat));
    s
}


// ---------------------------------------------------------------------------
// Why `str::parse` rejects an integer
// ---------------------------------------------------------------------------

/// How `str::parse` rejects an integer, as `std::num::IntErrorKind`.
#[derive(Debug, Clone, Copy, PartialEq, Eq, Structural)]
pub enum IntErrorKind {
    Empty,
    InvalidDigit,
    PosOverflow,
    NegOverflow,
}

/// Reading the digits `d[i..]` left to right onto `acc`: `1` at the first
/// non-digit, `2` when the value first exceeds `limit`, `0` when neither
/// happens.
pub open spec fn digit_scan(d: Seq<char>, i: int, acc: nat, limit: nat) -> u8
    decreases d.len() - i,
{
    if i < 0 || i >= d.len() {
        0
    } else if !is_digit(d[i]) {
        1
    } else if acc * 10 + digit_val(d[i]) > limit {
        2
    } else {
        digit_scan(d, i + 1, acc * 10 + digit_val(d[i]), limit)
    }
}

/// Why parsing `t` as a `u32` (`signed` false) or an `i32` (`signed`
/// true) fails, for a `t` on which it fails: the digits are read left to
/// right after an optional sign, and the first of a non-digit and an
/// overflow decides.
pub open spec fn int_error_kind(t: Seq<char>, signed: bool) -> IntErrorKind {
    if t.len() == 0 {
        IntErrorKind::Empty
    } else if t.len() == 1 && (t[0] == '+' || t[0] == '-') {
        IntErrorKind::InvalidDigit
    } else if t[0] == '-' && signed {
        if digit_scan(t.drop_first(), 0, 0, 0x8000_0000) == 2 {
            IntErrorKind::NegOverflow
        } else {
            IntErrorKind::InvalidDigit
        }
    } else {
        let d = if t[0] == '+' {
            t.drop_first()
        } else {
            t
        };
        if digit_scan(d, 0, 0, if signed { 0x7FFF_FFFFnat } else { 0xFFFF_FFFFnat }) == 2 {
            IntErrorKind::PosOverflow
        } else {
            IntErrorKind::InvalidDigit
        }
    }
}

/// The text `std::num::ParseIntError` displays for each kind.
pub open spec fn int_error_text(k: IntErrorKind) -> Seq<char> {
    match k {
        IntErrorKind::Empty => "cannot parse integer from empty string"@,
        IntErrorKind::InvalidDigit => "invalid digit found in string"@,
        IntErrorKind::PosOverflow => "number too large to fit in target type"@,
        IntErrorKind::NegOverflow => "number too small to fit in target type"@,
    }
}

/// `digit_scan` over a vector of characters, from `start`.
fn digit_scan_exec(v: &Vec<char>, start: usize, limit: u64) -> (r: u8)
    requires
        start <= v@.len(),
        limit <= 0xFFFF_FFFF,
    ensures
        r == digit_scan(v@.skip(start as int), 0, 0, limit as nat),
{
    let ghost d = v@.skip(start as int);
    let mut acc: u64 = 0;
    let mut i: usize = start;
    while i < v.len()
        invariant
            start <= i <= v@.len(),
            d == v@.skip(start as int),
            acc <= limit,
            limit <= 0xFFFF_FFFF,
            digit_scan(d, 0, 0, limit as nat) == digit_scan(d, i - start, acc as nat, limit as nat),
        decreases v.len() - i,
    {
        let c = v[i];
        assert(d[i - start] == c);
        if !('0' <= c && c <= '9') {
            return 1;
        }
        let next = acc * 10 + (c as u32 - '0' as u32) as u64;
        if next > limit {
            return 2;
        }
        acc = next;
        i = i + 1;
    }
    0
}

/// The kind of error parsing `s` raises, read as `int_error_kind`.
pub fn int_error_kind_of(s: &str, signed: bool) -> (k: IntErrorKind)
    ensures
        k == int_error_kind(s@, signed),
{
    let v = to_chars(s);
    if v.len() == 0 {
        return IntErrorKind::Empty;
    }
    if v.len() == 1 && (v[0] == '+' || v[0] == '-') {
        return IntErrorKind::InvalidDigit;
    }
    if v[0] == '-' && signed {
        assert(v@.skip(1) =~= s@.drop_first());
        if digit_scan_exec(&v, 1, 0x8000_0000) == 2 {
            return IntErrorKind::NegOverflow;
        }
        return IntErrorKind::InvalidDigit;
    }
    let start: usize = if v[0] == '+' {
        1
    } else {
        0
    };
    assert(v@.skip(1) =~= s@.drop_first());
    assert(v@.skip(0) =~= s@);
    let limit: u64 = if signed {
        0x7FFF_FFFF
    } else {
        0xFFFF_FFFF
    };
    if digit_scan_exec(&v, start, limit) == 2 {
        IntErrorKind::PosOverflow
    } else {
        IntErrorKind::InvalidDigit
    }
}

/// The text of an integer parse error of kind `k`.
pub fn int_error_message(k: IntErrorKind) -> (r: &'static str)
    ensures
        r@ == int_error_text(k),
{
    match k {
        IntErrorKind::Empty => "cannot parse integer from empty string",
        IntErrorKind::InvalidDigit => "invalid digit found in string",
        IntErrorKind::PosOverflow => "number too large to fit in target type",
        IntErrorKind::NegOverflow => "number too small to fit in target type",
    }
}

} // verus!
