//! Text helpers: number rendering, whitespace classification and the
//! small string operations that the framework's rules are written in.

use vstd::prelude::*;
use vstd::string::*;
use vstd::utf8::is_ascii_chars;
use vstd::arithmetic::power::{pow, lemma_pow_positive};
use vstd::arithmetic::div_mod::{lemma_breakdown, lemma_small_mod};

verus! {

/// The decimal digit character for `d` (0..=9).
pub open spec fn digit_char(d: int) -> char {
    if d == 0 { '0' } else if d == 1 { '1' } else if d == 2 { '2' } else if d == 3 { '3' }
    else if d == 4 { '4' } else if d == 5 { '5' } else if d == 6 { '6' } else if d == 7 { '7' }
    else if d == 8 { '8' } else { '9' }
}

/// The lowercase hexadecimal digit character for `d` (0..=15).
pub open spec fn hex_char(d: int) -> char {
    if d < 10 { digit_char(d) } else if d == 10 { 'a' } else if d == 11 { 'b' } else if d == 12 { 'c' }
    else if d == 13 { 'd' } else if d == 14 { 'e' } else { 'f' }
}

/// Decimal rendering of a natural number, without leading zeros.
pub open spec fn decimal(n: nat) -> Seq<char>
    decreases n,
{
    if n < 10 {
        seq![digit_char(n as int)]
    } else {
        decimal(n / 10).push(digit_char((n % 10) as int))
    }
}

/// Decimal rendering of an integer, with a leading `-` for negative values.
pub open spec fn signed_decimal(n: int) -> Seq<char> {
    if n < 0 { seq!['-'] + decimal((-n) as nat) } else { decimal(n as nat) }
}

/// The last `width` lowercase hexadecimal digits of `n`, zero-padded.
pub open spec fn hex_digits(n: nat, width: nat) -> Seq<char>
    decreases width,
{
    if width == 0 {
        Seq::empty()
    } else {
        hex_digits(n / 16, (width - 1) as nat).push(hex_char((n % 16) as int))
    }
}

/// Distinct hexadecimal digit values have distinct characters.
pub proof fn lemma_hex_char_injective(a: int, b: int)
    requires
        0 <= a < 16,
        0 <= b < 16,
        hex_char(a) == hex_char(b),
    ensures
        a == b,
{
}

/// Two numbers with the same last `width` hexadecimal digits agree modulo
/// `16^width`.
pub proof fn lemma_hex_digits_injective(n: nat, m: nat, width: nat)
    requires
        hex_digits(n, width) == hex_digits(m, width),
    ensures
        (n as int) % pow(16, width) == (m as int) % pow(16, width),
    decreases width,
{
    reveal(pow);
    if width > 0 {
        let w1 = (width - 1) as nat;
        let a = hex_digits(n / 16, w1);
        let b = hex_digits(m / 16, w1);
        assert(hex_digits(n, width) == a.push(hex_char((n % 16) as int)));
        assert(hex_digits(m, width) == b.push(hex_char((m % 16) as int)));
        assert(a =~= hex_digits(n, width).drop_last());
        assert(b =~= hex_digits(m, width).drop_last());
        assert(hex_digits(n, width).last() == hex_char((n % 16) as int));
        assert(hex_digits(m, width).last() == hex_char((m % 16) as int));
        lemma_hex_char_injective((n % 16) as int, (m % 16) as int);
        lemma_hex_digits_injective(n / 16, m / 16, w1);
        lemma_pow_positive(16, w1);
        lemma_breakdown(n as int, 16, pow(16, w1));
        lemma_breakdown(m as int, 16, pow(16, w1));
        assert(pow(16, width) == 16 * pow(16, w1));
    }
}

/// Sixteen hexadecimal digits tell every `u64` apart.
pub proof fn lemma_hex16_injective(n: u64, m: u64)
    requires
        hex_digits(n as nat, 16) == hex_digits(m as nat, 16),
    ensures
        n == m,
{
    lemma_hex_digits_injective(n as nat, m as nat, 16);
    assert(pow(16, 16) == 0x1_0000_0000_0000_0000) by {
        reveal_with_fuel(pow, 17);
    }
    lemma_small_mod(n as nat, 0x1_0000_0000_0000_0000);
    lemma_small_mod(m as nat, 0x1_0000_0000_0000_0000);
}

/// `c` is a Unicode `White_Space` character, the set that `char::is_whitespace`
/// and `str::trim` use.
pub open spec fn is_whitespace(c: char) -> bool {
    let u = c as u32;
    (0x09 <= u && u <= 0x0D) || u == 0x20 || u == 0x85 || u == 0xA0 || u == 0x1680
        || (0x2000 <= u && u <= 0x200A) || u == 0x2028 || u == 0x2029 || u == 0x202F
        || u == 0x205F || u == 0x3000
}

/// Every character of `s` is whitespace (so `s.trim()` is empty).
pub open spec fn is_blank(s: Seq<char>) -> bool {
    forall|i: int| 0 <= i < s.len() ==> is_whitespace(#[trigger] s[i])
}

fn digit_str(d: u64) -> (r: &'static str)
    requires
        d < 10,
    ensures
        r@ == seq![digit_char(d as int)],
{
    proof {
        reveal_strlit("0"); reveal_strlit("1"); reveal_strlit("2"); reveal_strlit("3");
        reveal_strlit("4"); reveal_strlit("5"); reveal_strlit("6"); reveal_strlit("7");
        reveal_strlit("8"); reveal_strlit("9");
    }
    if d == 0 { "0" } else if d == 1 { "1" } else if d == 2 { "2" } else if d == 3 { "3" }
    else if d == 4 { "4" } else if d == 5 { "5" } else if d == 6 { "6" } else if d == 7 { "7" }
    else if d == 8 { "8" } else { "9" }
}

fn hex_str(d: u64) -> (r: &'static str)
    requires
        d < 16,
    ensures
        r@ == seq![hex_char(d as int)],
{
    if d < 10 {
        digit_str(d)
    } else {
        proof {
            reveal_strlit("a"); reveal_strlit("b"); reveal_strlit("c");
            reveal_strlit("d"); reveal_strlit("e"); reveal_strlit("f");
        }
        if d == 10 { "a" } else if d == 11 { "b" } else if d == 12 { "c" }
        else if d == 13 { "d" } else if d == 14 { "e" } else { "f" }
    }
}

/// Decimal rendering of `n`, as `n.to_string()` gives it.
pub fn u64_to_decimal(n: u64) -> (r: String)
    ensures
        r@ == decimal(n as nat),
    decreases n,
{
    if n < 10 {
        String::from_str(digit_str(n))
    } else {
        let prefix = u64_to_decimal(n / 10);
        prefix.concat(digit_str(n % 10))
    }
}

/// Decimal rendering of a signed `n`, as `n.to_string()` gives it.
pub fn i64_to_decimal(n: i64) -> (r: String)
    ensures
        r@ == signed_decimal(n as int),
{
    if n < 0 {
        let magnitude: u64 = ((-(n + 1)) as u64) + 1;
        assert(magnitude as int == -(n as int));
        proof { reveal_strlit("-"); }
        String::from_str("-").concat(u64_to_decimal(magnitude).as_str())
    } else {
        u64_to_decimal(n as u64)
    }
}

/// The last `width` hexadecimal digits of `n`, zero-padded (`{:0width$x}`
/// for values that fit in `width` digits).
pub fn u64_to_hex(n: u64, width: u32) -> (r: String)
    ensures
        r@ == hex_digits(n as nat, width as nat),
    decreases width,
{
    if width == 0 {
        String::new()
    } else {
        let prefix = u64_to_hex(n / 16, width - 1);
        prefix.concat(hex_str(n % 16))
    }
}

/// Whether `c` is a Unicode whitespace character.
pub fn char_is_whitespace(c: char) -> (r: bool)
    ensures
        r == is_whitespace(c),
{
    let u = c as u32;
    (0x09 <= u && u <= 0x0D) || u == 0x20 || u == 0x85 || u == 0xA0 || u == 0x1680
        || (0x2000 <= u && u <= 0x200A) || u == 0x2028 || u == 0x2029 || u == 0x202F
        || u == 0x205F || u == 0x3000
}

/// Whether `s.trim()` is empty.
pub fn str_is_blank(s: &str) -> (r: bool)
    ensures
        r == is_blank(s@),
{
    let n = s.unicode_len();
    let mut i: usize = 0;
    while i < n
        invariant
            n == s@.len(),
            i <= n,
            forall|j: int| 0 <= j < i ==> is_whitespace(#[trigger] s@[j]),
        decreases n - i,
    {
        let c = s.get_char(i);
        if !char_is_whitespace(c) {
            return false;
        }
        i = i + 1;
    }
    true
}

/// Unicode upper-case mapping of a string, as `str::to_uppercase` computes it.
pub uninterp spec fn uppercase(s: Seq<char>) -> Seq<char>;

/// Unicode lower-case mapping of a string, as `str::to_lowercase` computes it.
pub uninterp spec fn lowercase(s: Seq<char>) -> Seq<char>;

/// `c` with an ASCII lower-case letter mapped to its upper-case letter.
pub open spec fn ascii_upper_char(c: char) -> char {
    if 'a' <= c && c <= 'z' { ((c as u32) - 32) as char } else { c }
}

/// `c` with an ASCII upper-case letter mapped to its lower-case letter.
pub open spec fn ascii_lower_char(c: char) -> char {
    if 'A' <= c && c <= 'Z' { ((c as u32) + 32) as char } else { c }
}

/// `s` with its ASCII letters upper-cased.
pub open spec fn ascii_upper(s: Seq<char>) -> Seq<char> {
    s.map_values(|c: char| ascii_upper_char(c))
}

/// `s` with its ASCII letters lower-cased.
pub open spec fn ascii_lower(s: Seq<char>) -> Seq<char> {
    s.map_values(|c: char| ascii_lower_char(c))
}

/// Upper-cases `s`.
///
/// Calls `str::to_uppercase`; the result is named `uppercase(s)`, a function
/// of the text alone (the Unicode case tables). On ASCII text the Unicode
/// upper-case mapping is that of the ASCII letters, which the contract
/// states.
#[verifier::external_body]
pub(crate) fn to_uppercase(s: &str) -> (r: String)
    ensures
        r@ == uppercase(s@),
        is_ascii_chars(s@) ==> r@ == ascii_upper(s@),
{
    s.to_uppercase()
}

/// Lower-cases `s`.
///
/// Calls `str::to_lowercase`; the result is named `lowercase(s)`, a function
/// of the text alone (the Unicode case tables). On ASCII text the Unicode
/// lower-case mapping is that of the ASCII letters, which the contract
/// states.
#[verifier::external_body]
pub(crate) fn to_lowercase(s: &str) -> (r: String)
    ensures
        r@ == lowercase(s@),
        is_ascii_chars(s@) ==> r@ == ascii_lower(s@),
{
    s.to_lowercase()
}

/// Appends one character.
///
/// Calls `String::push`, which appends the character at the end.
#[verifier::external_body]
pub(crate) fn push_char(s: &mut String, c: char)
    ensures
        final(s)@ == old(s)@.push(c),
{
    s.push(c)
}

/// `p` occurs in `s` at position `i`.
pub open spec fn occurs_at(s: Seq<char>, p: Seq<char>, i: int) -> bool {
    0 <= i && i + p.len() <= s.len() && s.subrange(i, i + p.len()) == p
}

/// Whether `a` and `b` are the same text.
pub fn str_equal(a: &str, b: &str) -> (r: bool)
    ensures
        r == (a@ == b@),
{
    if a.unicode_len() != b.unicode_len() {
        return false;
    }
    let r = starts_with(a, b);
    proof {
        if r {
            assert(a@ =~= b@);
        }
    }
    r
}

/// Whether `s` starts with `p`.
pub fn starts_with(s: &str, p: &str) -> (r: bool)
    ensures
        r == p@.is_prefix_of(s@),
{
    let n = s.unicode_len();
    let m = p.unicode_len();
    if m > n {
        return false;
    }
    let mut i: usize = 0;
    while i < m
        invariant
            m <= n,
            n == s@.len(),
            m == p@.len(),
            i <= m,
            forall|j: int| 0 <= j < i ==> s@[j] == p@[j],
        decreases m - i,
    {
        if s.get_char(i) != p.get_char(i) {
            return false;
        }
        i = i + 1;
    }
    true
}

/// `s` with every leading occurrence of `p` removed (`str::trim_start_matches`
/// with a string pattern; an empty pattern removes nothing).
pub open spec fn strip_leading(s: Seq<char>, p: Seq<char>) -> Seq<char>
    decreases s.len(),
{
    if p.len() > 0 && p.is_prefix_of(s) {
        strip_leading(s.skip(p.len() as int), p)
    } else {
        s
    }
}

/// Removes every leading occurrence of `p` from `s`.
pub fn trim_start_matches(s: &str, p: &str) -> (r: String)
    ensures
        r@ == strip_leading(s@, p@),
{
    let n = s.unicode_len();
    let m = p.unicode_len();
    if m == 0 || m > n {
        assert(!(p@.len() > 0 && p@.is_prefix_of(s@)));
        return String::from_str(s);
    }
    let mut start: usize = 0;
    assert(s@.skip(0) =~= s@);
    while start <= n - m
        invariant
            n == s@.len(),
            m == p@.len(),
            0 < m <= n,
            start <= n,
            strip_leading(s@, p@) == strip_leading(s@.skip(start as int), p@),
        ensures
            start <= n,
            strip_leading(s@, p@) == strip_leading(s@.skip(start as int), p@),
            !p@.is_prefix_of(s@.skip(start as int)),
        decreases n - start,
    {
        let rest = s.substring_char(start, n);
        assert(rest@ =~= s@.skip(start as int));
        if !starts_with(rest, p) {
            break;
        }
        assert(s@.skip(start as int).skip(m as int) =~= s@.skip((start + m) as int));
        start = start + m;
    }
    let r = String::from_str(s.substring_char(start, n));
    assert(r@ =~= s@.skip(start as int));
    assert(!p@.is_prefix_of(s@.skip(start as int)));
    assert(strip_leading(s@.skip(start as int), p@) == s@.skip(start as int));
    r
}

/// Index of the first occurrence of `p` in `s` at or after `i`, or -1.
pub open spec fn find_from(s: Seq<char>, p: Seq<char>, i: int) -> int
    decreases s.len() + 1 - i,
{
    if i < 0 || i + p.len() > s.len() {
        -1
    } else if occurs_at(s, p, i) {
        i
    } else {
        find_from(s, p, i + 1)
    }
}

/// The pieces of `s` between non-overlapping occurrences of the non-empty
/// separator `sep`, scanning from the left (`str::split`).
pub open spec fn split_by(s: Seq<char>, sep: Seq<char>) -> Seq<Seq<char>>
    decreases s.len(),
{
    let i = find_from(s, sep, 0);
    if sep.len() == 0 || i < 0 {
        seq![s]
    } else {
        proof {
            lemma_find_from_bounds(s, sep, 0);
        }
        seq![s.take(i)] + split_by(s.skip(i + sep.len()), sep)
    }
}

/// A found occurrence lies within the string, at or after the start.
pub proof fn lemma_find_from_bounds(s: Seq<char>, p: Seq<char>, i: int)
    ensures
        find_from(s, p, i) >= 0 ==> i <= find_from(s, p, i) && find_from(s, p, i) + p.len() <= s.len()
            && occurs_at(s, p, find_from(s, p, i)),
        find_from(s, p, i) >= 0 || find_from(s, p, i) == -1,
    decreases s.len() + 1 - i,
{
    if i < 0 || i + p.len() > s.len() {
    } else if occurs_at(s, p, i) {
    } else {
        lemma_find_from_bounds(s, p, i + 1);
    }
}

proof fn lemma_find_from_step(t: Seq<char>, p: Seq<char>, k: int)
    requires
        0 <= k,
        k + p.len() <= t.len(),
        !occurs_at(t, p, k),
    ensures
        find_from(t, p, k) == find_from(t, p, k + 1),
{
}

/// The characters of each string.
pub open spec fn views_of(v: Seq<String>) -> Seq<Seq<char>> {
    v.map_values(|x: String| x@)
}

/// Splits `s` on every non-overlapping occurrence of `sep`, from the left.
pub fn split_str(s: &str, sep: &str) -> (r: Vec<String>)
    requires
        sep@.len() > 0,
    ensures
        views_of(r@) == split_by(s@, sep@),
{
    let n = s.unicode_len();
    let m = sep.unicode_len();
    let mut pieces: Vec<String> = Vec::new();
    let mut seg: usize = 0;
    let mut j: usize = 0;
    assert(s@.skip(0) =~= s@);
    while j < n && m <= n - j
        invariant
            n == s@.len(),
            m == sep@.len(),
            m > 0,
            seg <= j <= n,
            views_of(pieces@) + split_by(s@.skip(seg as int), sep@) == split_by(s@, sep@),
            find_from(s@.skip(seg as int), sep@, 0) == find_from(s@.skip(seg as int), sep@, (j - seg) as int),
        decreases n - j,
    {
        let ghost t = s@.skip(seg as int);
        let window = s.substring_char(j, j + m);
        let hit = starts_with(window, sep);
        assert(window@ =~= t.subrange((j - seg) as int, (j - seg + m) as int));
        if hit {
            assert(window@ =~= sep@);
            assert(occurs_at(t, sep@, (j - seg) as int));
            let piece = String::from_str(s.substring_char(seg, j));
            assert(piece@ =~= t.take((j - seg) as int));
            assert(t.skip((j - seg + m) as int) =~= s@.skip((j + m) as int));
            assert(split_by(t, sep@) == seq![t.take((j - seg) as int)] + split_by(
                t.skip((j - seg) + m),
                sep@,
            ));
            let ghost before = pieces@;
            pieces.push(piece);
            assert(views_of(pieces@) =~= views_of(before).push(piece@));
            seg = j + m;
            j = seg;
            assert(s@.skip(seg as int) =~= s@.skip((j) as int));
        } else {
            assert(!occurs_at(t, sep@, (j - seg) as int));
            proof {
                lemma_find_from_step(t, sep@, (j - seg) as int);
            }
            j = j + 1;
        }
    }
    let ghost t = s@.skip(seg as int);
    assert(find_from(t, sep@, (j - seg) as int) == -1);
    let last = String::from_str(s.substring_char(seg, n));
    assert(last@ =~= t);
    assert(split_by(t, sep@) == seq![t]);
    let ghost before = pieces@;
    pieces.push(last);
    assert(views_of(pieces@) =~= views_of(before).push(last@));
    assert(views_of(pieces@) =~= split_by(s@, sep@));
    pieces
}

/// `s` with every trailing occurrence of `p` removed (`str::trim_end_matches`
/// with a string pattern; an empty pattern removes nothing).
pub open spec fn strip_trailing(s: Seq<char>, p: Seq<char>) -> Seq<char>
    decreases s.len(),
{
    if p.len() > 0 && p.is_suffix_of(s) {
        strip_trailing(s.take(s.len() - p.len()), p)
    } else {
        s
    }
}

/// Removes every trailing occurrence of `c` from `s`.
pub fn trim_end_char(s: &str, c: char) -> (r: String)
    ensures
        r@ == strip_trailing(s@, seq![c]),
{
    let n = s.unicode_len();
    let mut end: usize = n;
    assert(s@.take(n as int) =~= s@);
    while end > 0 && s.get_char(end - 1) == c
        invariant
            n == s@.len(),
            end <= n,
            strip_trailing(s@, seq![c]) == strip_trailing(s@.take(end as int), seq![c]),
        decreases end,
    {
        assert(seq![c].is_suffix_of(s@.take(end as int)));
        assert(s@.take(end as int).take(end - 1) =~= s@.take(end - 1));
        end = end - 1;
    }
    let r = String::from_str(s.substring_char(0, end));
    assert(r@ =~= s@.take(end as int));
    proof {
        if end > 0 {
            let t = s@.take(end as int);
            assert(s@[end - 1] != c);
            if seq![c].is_suffix_of(t) {
                assert(t.subrange(t.len() - 1, t.len() as int)[0] == t[end - 1]);
                assert(seq![c][0] == c);
            }
        }
    }
    r
}

/// Removes every leading and trailing occurrence of `c` (`str::trim_matches`
/// with a character).
pub fn trim_char(s: &str, c: char) -> (r: String)
    ensures
        r@ == strip_trailing(strip_leading(s@, seq![c]), seq![c]),
{
    let mut one = String::new();
    push_char(&mut one, c);
    assert(one@ =~= seq![c]);
    let front = trim_start_matches(s, one.as_str());
    trim_end_char(front.as_str(), c)
}

/// Index of the last occurrence of `c` in `s`, or -1.
pub open spec fn last_index_of(s: Seq<char>, c: char) -> int
    decreases s.len(),
{
    if s.len() == 0 {
        -1
    } else if s.last() == c {
        s.len() - 1
    } else {
        last_index_of(s.drop_last(), c)
    }
}

/// Why text does not parse as an integer (`std::num::IntErrorKind`).
#[derive(Debug, Clone, Copy, PartialEq, Eq, Structural)]
pub enum IntErrorKind {
    Empty,
    InvalidDigit,
    PosOverflow,
}

/// The text of a parse error, as `ParseIntError` displays it.
pub open spec fn int_error_text(k: IntErrorKind) -> Seq<char> {
    match k {
        IntErrorKind::Empty => "cannot parse integer from empty string"@,
        IntErrorKind::InvalidDigit => "invalid digit found in string"@,
        IntErrorKind::PosOverflow => "number too large to fit in target type"@,
    }
}

/// Value of an ASCII decimal digit.
pub open spec fn digit_value(c: char) -> int {
    (c as u32) - ('0' as u32)
}

/// ASCII decimal digit.
pub open spec fn is_digit(c: char) -> bool {
    '0' <= c && c <= '9'
}

/// The digits `ds` read left to right after `acc`, failing at the first
/// non-digit or when the value passes `max`.
pub open spec fn read_digits(ds: Seq<char>, acc: nat, max: nat) -> Result<nat, IntErrorKind>
    decreases ds.len(),
{
    if ds.len() == 0 {
        Ok(acc)
    } else if !is_digit(ds[0]) {
        Err(IntErrorKind::InvalidDigit)
    } else if acc * 10 + digit_value(ds[0]) > max {
        Err(IntErrorKind::PosOverflow)
    } else {
        read_digits(ds.drop_first(), (acc * 10 + digit_value(ds[0])) as nat, max)
    }
}

/// How `str::parse` reads an unsigned integer no larger than `max`: an
/// optional `+`, then decimal digits.
pub open spec fn parse_unsigned(s: Seq<char>, max: nat) -> Result<nat, IntErrorKind> {
    if s.len() == 0 {
        Err(IntErrorKind::Empty)
    } else if s.len() == 1 && (s[0] == '+' || s[0] == '-') {
        Err(IntErrorKind::InvalidDigit)
    } else if s[0] == '+' {
        read_digits(s.drop_first(), 0, max)
    } else {
        read_digits(s, 0, max)
    }
}

/// Parse `s` as a `u16`, as `s.parse::<u16>()` does.
pub fn parse_u16(s: &str) -> (r: Result<u16, IntErrorKind>)
    ensures
        (match r {
            Ok(v) => Ok(v as nat),
            Err(k) => Err(k),
        }) == parse_unsigned(s@, 65535),
{
    let n = s.unicode_len();
    if n == 0 {
        return Err(IntErrorKind::Empty);
    }
    let first = s.get_char(0);
    if n == 1 && (first == '+' || first == '-') {
        return Err(IntErrorKind::InvalidDigit);
    }
    let mut i: usize = if first == '+' { 1 } else { 0 };
    let ghost ds = s@.skip(i as int);
    assert(first == '+' ==> ds =~= s@.drop_first());
    assert(first != '+' ==> ds =~= s@);
    let mut acc: u32 = 0;
    while i < n
        invariant
            n == s@.len(),
            i <= n,
            acc <= 65535,
            parse_unsigned(s@, 65535) == read_digits(s@.skip(i as int), acc as nat, 65535),
        decreases n - i,
    {
        let c = s.get_char(i);
        assert(s@.skip(i as int)[0] == c);
        assert(s@.skip(i as int).drop_first() =~= s@.skip(i + 1));
        if !('0' <= c && c <= '9') {
            return Err(IntErrorKind::InvalidDigit);
        }
        let d = (c as u32) - ('0' as u32);
        if acc * 10 + d > 65535 {
            return Err(IntErrorKind::PosOverflow);
        }
        acc = acc * 10 + d;
        i = i + 1;
    }
    assert(s@.skip(i as int) =~= Seq::<char>::empty());
    Ok(acc as u16)
}

/// The display text of a parse error.
pub fn int_error_string(k: &IntErrorKind) -> (r: String)
    ensures
        r@ == int_error_text(*k),
{
    match k {
        IntErrorKind::Empty => String::from_str("cannot parse integer from empty string"),
        IntErrorKind::InvalidDigit => String::from_str("invalid digit found in string"),
        IntErrorKind::PosOverflow => String::from_str("number too large to fit in target type"),
    }
}

/// The code of `c` with ASCII upper-case letters mapped to lower case.
pub open spec fn ascii_fold(c: char) -> u32 {
    if 'A' <= c && c <= 'Z' { ((c as u32) + 32) as u32 } else { c as u32 }
}

/// `a` and `b` are equal up to ASCII case (`str::eq_ignore_ascii_case`).
pub open spec fn eq_ascii_case(a: Seq<char>, b: Seq<char>) -> bool {
    a.len() == b.len() && forall|i: int| 0 <= i < a.len() ==> #[trigger] ascii_fold(a[i]) == ascii_fold(b[i])
}

/// Whether `a` and `b` are equal up to ASCII case.
pub fn eq_ignore_ascii_case(a: &str, b: &str) -> (r: bool)
    ensures
        r == eq_ascii_case(a@, b@),
{
    let n = a.unicode_len();
    if n != b.unicode_len() {
        return false;
    }
    let mut i: usize = 0;
    while i < n
        invariant
            n == a@.len(),
            n == b@.len(),
            i <= n,
            forall|j: int| 0 <= j < i ==> #[trigger] ascii_fold(a@[j]) == ascii_fold(b@[j]),
        decreases n - i,
    {
        let x = a.get_char(i);
        let y = b.get_char(i);
        let fx: u32 = if 'A' <= x && x <= 'Z' { (x as u32) + 32 } else { x as u32 };
        let fy: u32 = if 'A' <= y && y <= 'Z' { (y as u32) + 32 } else { y as u32 };
        if fx != fy {
            assert(ascii_fold(a@[i as int]) != ascii_fold(b@[i as int]));
            return false;
        }
        i = i + 1;
    }
    true
}

} // verus!
