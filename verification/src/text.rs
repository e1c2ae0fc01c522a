//! Character-level text helpers shared by the whole crate: ASCII classes,
//! conversions between `str`, `String` and `Vec<char>`, decimal rendering of
//! integers, and the few Unicode-aware std operations the logic relies on.

use vstd::prelude::*;

verus! {

// ---------------------------------------------------------------------------
// ASCII character classes
// ---------------------------------------------------------------------------

pub open spec fn is_ascii_digit(c: char) -> bool {
    48 <= (c as u32) <= 57
}

pub open spec fn is_ascii_upper(c: char) -> bool {
    65 <= (c as u32) <= 90
}

pub open spec fn is_ascii_lower(c: char) -> bool {
    97 <= (c as u32) <= 122
}

pub open spec fn is_ascii_alpha(c: char) -> bool {
    is_ascii_upper(c) || is_ascii_lower(c)
}

pub open spec fn is_ascii_alnum(c: char) -> bool {
    is_ascii_digit(c) || is_ascii_alpha(c)
}

pub open spec fn is_ascii_hexdigit(c: char) -> bool {
    is_ascii_digit(c) || (65 <= (c as u32) <= 70) || (97 <= (c as u32) <= 102)
}

pub open spec fn is_ascii_char(c: char) -> bool {
    (c as u32) < 128
}

/// Code point of `c` with ASCII upper case folded to lower case.
pub open spec fn fold_code(c: char) -> u32 {
    if is_ascii_upper(c) {
        ((c as u32) + 32) as u32
    } else {
        c as u32
    }
}

pub open spec fn eq_ignore_ascii_case(a: char, b: char) -> bool {
    fold_code(a) == fold_code(b)
}

pub fn ascii_digit(c: char) -> (r: bool)
    ensures
        r == is_ascii_digit(c),
{
    let x = c as u32;
    48 <= x && x <= 57
}

pub fn ascii_alpha(c: char) -> (r: bool)
    ensures
        r == is_ascii_alpha(c),
{
    let x = c as u32;
    (65 <= x && x <= 90) || (97 <= x && x <= 122)
}

pub fn ascii_alnum(c: char) -> (r: bool)
    ensures
        r == is_ascii_alnum(c),
{
    ascii_digit(c) || ascii_alpha(c)
}

pub fn ascii_hexdigit(c: char) -> (r: bool)
    ensures
        r == is_ascii_hexdigit(c),
{
    let x = c as u32;
    ascii_digit(c) || (65 <= x && x <= 70) || (97 <= x && x <= 102)
}

pub fn ascii_char(c: char) -> (r: bool)
    ensures
        r == is_ascii_char(c),
{
    (c as u32) < 128
}

pub fn chars_eq_ignore_ascii_case(a: char, b: char) -> (r: bool)
    ensures
        r == eq_ignore_ascii_case(a, b),
{
    let x = a as u32;
    let y = b as u32;
    let fx = if 65 <= x && x <= 90 { x + 32 } else { x };
    let fy = if 65 <= y && y <= 90 { y + 32 } else { y };
    fx == fy
}

// ---------------------------------------------------------------------------
// Sequences of characters
// ---------------------------------------------------------------------------

/// `pattern` occurs in `s` at position `i`.
pub open spec fn occurs_at(s: Seq<char>, pattern: Seq<char>, i: int) -> bool {
    &&& 0 <= i
    &&& i + pattern.len() <= s.len()
    &&& s.subrange(i, i + pattern.len()) == pattern
}

/// `pattern` occurs in `s` at position `i`, ignoring ASCII case.
pub open spec fn occurs_at_ignore_ascii_case(s: Seq<char>, pattern: Seq<char>, i: int) -> bool {
    &&& 0 <= i
    &&& i + pattern.len() <= s.len()
    &&& forall|k: int| 0 <= k < pattern.len() ==> eq_ignore_ascii_case(#[trigger] s[i + k], pattern[k])
}

pub open spec fn seq_eq_ignore_ascii_case(a: Seq<char>, b: Seq<char>) -> bool {
    &&& a.len() == b.len()
    &&& forall|k: int| 0 <= k < a.len() ==> eq_ignore_ascii_case(#[trigger] a[k], b[k])
}

pub open spec fn all_ascii(s: Seq<char>) -> bool {
    forall|k: int| 0 <= k < s.len() ==> is_ascii_char(#[trigger] s[k])
}

pub fn to_chars(s: &str) -> (v: Vec<char>)
    ensures
        v@ == s@,
{
    let mut v: Vec<char> = Vec::new();
    for c in it: s.chars()
        invariant
            v@ == it.seq().take(it.index() as int),
    {
        v.push(c);
    }
    v
}

/// Appends every character of `s` to `out`.
pub fn extend_chars(out: &mut Vec<char>, s: &Vec<char>)
    ensures
        final(out)@ == old(out)@ + s@,
{
    let n = s.len();
    let mut i: usize = 0;
    while i < n
        invariant
            n == s@.len(),
            i <= n,
            out@ == old(out)@ + s@.take(i as int),
        decreases n - i,
    {
        assert(s@.take(i + 1) == s@.take(i as int).push(s@[i as int]));
        out.push(s[i]);
        i = i + 1;
    }
    assert(s@.take(n as int) == s@);
}

/// Appends every character of `s` to `out`.
pub fn extend_str(out: &mut Vec<char>, s: &str)
    ensures
        final(out)@ == old(out)@ + s@,
{
    let v = to_chars(s);
    extend_chars(out, &v);
}

/// Appends `s[from..to]` to `out`.
pub fn extend_range(out: &mut Vec<char>, s: &Vec<char>, from: usize, to: usize)
    requires
        from <= to <= s@.len(),
    ensures
        final(out)@ == old(out)@ + s@.subrange(from as int, to as int),
{
    let mut i: usize = from;
    while i < to
        invariant
            from <= i <= to <= s@.len(),
            out@ == old(out)@ + s@.subrange(from as int, i as int),
        decreases to - i,
    {
        assert(s@.subrange(from as int, i + 1) == s@.subrange(from as int, i as int).push(s@[i as int]));
        out.push(s[i]);
        i = i + 1;
    }
}

/// Calls `String::push` (std); claims that the string afterwards is the old
/// one with `c` appended.
#[verifier::external_body]
fn string_push(s: &mut String, c: char)
    ensures
        final(s)@ == old(s)@.push(c),
{
    s.push(c);
}

pub fn string_from_chars(v: &Vec<char>) -> (s: String)
    ensures
        s@ == v@,
{
    let mut s = String::new();
    let n = v.len();
    let mut i: usize = 0;
    while i < n
        invariant
            n == v@.len(),
            i <= n,
            s@ == v@.take(i as int),
        decreases n - i,
    {
        assert(v@.take(i + 1) == v@.take(i as int).push(v@[i as int]));
        string_push(&mut s, v[i]);
        i = i + 1;
    }
    assert(v@.take(n as int) == v@);
    s
}

pub fn string_from_str(s: &str) -> (r: String)
    ensures
        r@ == s@,
{
    let v = to_chars(s);
    string_from_chars(&v)
}

pub fn chars_eq(a: &Vec<char>, b: &Vec<char>) -> (r: bool)
    ensures
        r == (a@ == b@),
{
    if a.len() != b.len() {
        return false;
    }
    let n = a.len();
    let mut i: usize = 0;
    while i < n
        invariant
            n == a@.len(),
            n == b@.len(),
            i <= n,
            forall|k: int| 0 <= k < i ==> a@[k] == b@[k],
        decreases n - i,
    {
        if a[i] != b[i] {
            return false;
        }
        i = i + 1;
    }
    assert(a@ =~= b@);
    true
}

pub fn str_eq(a: &str, b: &str) -> (r: bool)
    ensures
        r == (a@ == b@),
{
    let x = to_chars(a);
    let y = to_chars(b);
    chars_eq(&x, &y)
}

/// Whether `pattern` occurs in `s` at `i`, ignoring ASCII case.
pub fn chars_at_ignore_ascii_case(s: &Vec<char>, i: usize, pattern: &Vec<char>) -> (r: bool)
    requires
        i <= s@.len(),
    ensures
        r == occurs_at_ignore_ascii_case(s@, pattern@, i as int),
{
    if pattern.len() > s.len() - i {
        return false;
    }
    let n = pattern.len();
    let slen = s.len();
    let mut k: usize = 0;
    while k < n
        invariant
            n == pattern@.len(),
            slen == s@.len(),
            i + n <= s@.len(),
            k <= n,
            forall|j: int| 0 <= j < k ==> eq_ignore_ascii_case(#[trigger] s@[i + j], pattern@[j]),
        decreases n - k,
    {
        if !chars_eq_ignore_ascii_case(s[i + k], pattern[k]) {
            return false;
        }
        k = k + 1;
    }
    true
}

/// Whether `pattern` occurs in `s` at `i`.
pub fn chars_at(s: &Vec<char>, i: usize, pattern: &Vec<char>) -> (r: bool)
    requires
        i <= s@.len(),
    ensures
        r == occurs_at(s@, pattern@, i as int),
{
    if pattern.len() > s.len() - i {
        return false;
    }
    let n = pattern.len();
    let slen = s.len();
    let mut k: usize = 0;
    while k < n
        invariant
            n == pattern@.len(),
            slen == s@.len(),
            i + n <= s@.len(),
            k <= n,
            forall|j: int| 0 <= j < k ==> #[trigger] s@[i + j] == pattern@[j],
        decreases n - k,
    {
        if s[i + k] != pattern[k] {
            assert(s@.subrange(i as int, i + n)[k as int] != pattern@[k as int]);
            return false;
        }
        k = k + 1;
    }
    assert forall|j: int| 0 <= j < n implies #[trigger] s@.subrange(i as int, i + n)[j] == pattern@[j] by {
        assert(s@[i + j] == pattern@[j]);
    }
    assert(s@.subrange(i as int, i + n) =~= pattern@);
    true
}

/// `pattern` occurs somewhere in `s`.
pub open spec fn contains_seq(s: Seq<char>, pattern: Seq<char>) -> bool {
    exists|i: int| occurs_at(s, pattern, i)
}

/// Whether `pattern` occurs anywhere in `s`.
pub fn contains_chars(s: &Vec<char>, pattern: &Vec<char>) -> (r: bool)
    ensures
        r == contains_seq(s@, pattern@),
{
    let n = s.len();
    let mut i: usize = 0;
    while i < n
        invariant
            n == s@.len(),
            i <= n,
            forall|j: int| 0 <= j < i ==> !occurs_at(s@, pattern@, j),
        decreases n - i,
    {
        if chars_at(s, i, pattern) {
            return true;
        }
        i = i + 1;
    }
    if chars_at(s, n, pattern) {
        return true;
    }
    assert forall|j: int| !occurs_at(s@, pattern@, j) by {
        if 0 <= j && j + pattern@.len() <= s@.len() {
            assert(j <= n);
        }
    }
    false
}

pub fn str_contains(s: &str, pattern: &str) -> (r: bool)
    ensures
        r == contains_seq(s@, pattern@),
{
    let a = to_chars(s);
    let b = to_chars(pattern);
    contains_chars(&a, &b)
}

pub fn is_all_ascii(s: &Vec<char>) -> (r: bool)
    ensures
        r == all_ascii(s@),
{
    let n = s.len();
    let mut i: usize = 0;
    while i < n
        invariant
            n == s@.len(),
            i <= n,
            forall|k: int| 0 <= k < i ==> is_ascii_char(#[trigger] s@[k]),
        decreases n - i,
    {
        if !ascii_char(s[i]) {
            return false;
        }
        i = i + 1;
    }
    true
}

// ---------------------------------------------------------------------------
// Decimal rendering
// ---------------------------------------------------------------------------

pub open spec fn digit_char(d: nat) -> char {
    ((d % 10) + 48) as char
}

/// Base-10 digits of `n`, most significant first, without leading zeros.
pub open spec fn decimal(n: nat) -> Seq<char>
    decreases n,
{
    if n < 10 {
        seq![digit_char(n)]
    } else {
        decimal(n / 10).push(digit_char(n % 10))
    }
}

/// Signed base-10 rendering of `n`.
pub open spec fn signed_decimal(n: int) -> Seq<char> {
    if n < 0 {
        seq!['-'] + decimal((-n) as nat)
    } else {
        decimal(n as nat)
    }
}

fn digit(d: u64) -> (c: char)
    requires
        d < 10,
    ensures
        c == digit_char(d as nat),
{
    let b: u8 = (d as u8) + 48;
    assert((d as nat) % 10 == d);
    b as char
}

/// Appends the decimal digits of `n` to `out`.
pub fn push_decimal(out: &mut Vec<char>, n: u64)
    ensures
        final(out)@ == old(out)@ + decimal(n as nat),
    decreases n,
{
    if n < 10 {
        out.push(digit(n));
        assert(decimal(n as nat) == seq![digit_char(n as nat)]);
        assert(old(out)@.push(digit_char(n as nat)) =~= old(out)@ + seq![digit_char(n as nat)]);
    } else {
        push_decimal(out, n / 10);
        let c = digit(n % 10);
        out.push(c);
        assert(decimal(n as nat) == decimal((n / 10) as nat).push(digit_char((n % 10) as nat)));
        assert(old(out)@ + decimal(n as nat) =~= (old(out)@ + decimal((n / 10) as nat)).push(c));
    }
}

/// Appends the signed decimal rendering of `n` to `out`.
pub fn push_signed_decimal(out: &mut Vec<char>, n: i64)
    ensures
        final(out)@ == old(out)@ + signed_decimal(n as int),
{
    if n < 0 {
        out.push('-');
        let magnitude: u64 = if n == i64::MIN {
            9223372036854775808u64
        } else {
            (-n) as u64
        };
        push_decimal(out, magnitude);
        assert(old(out)@ + signed_decimal(n as int) =~= old(out)@.push('-') + decimal(magnitude as nat));
    } else {
        push_decimal(out, n as u64);
    }
}

pub fn decimal_string(n: u64) -> (s: String)
    ensures
        s@ == decimal(n as nat),
{
    let mut v: Vec<char> = Vec::new();
    push_decimal(&mut v, n);
    assert(v@ =~= decimal(n as nat));
    string_from_chars(&v)
}

// ---------------------------------------------------------------------------
// Unicode-aware std operations
// ---------------------------------------------------------------------------

/// Unicode's `White_Space` property, the white space that `str::trim` and
/// `str::trim_start` remove: tab to carriage return, space, next line,
/// no-break space, Ogham space mark, the spaces from en quad to hair space,
/// line and paragraph separators, narrow no-break space, medium mathematical
/// space and ideographic space.
pub open spec fn is_white_space(c: char) -> bool {
    let x = c as u32;
    ||| 9 <= x <= 13
    ||| x == 32
    ||| x == 0x85
    ||| x == 0xA0
    ||| x == 0x1680
    ||| 0x2000 <= x <= 0x200A
    ||| x == 0x2028
    ||| x == 0x2029
    ||| x == 0x202F
    ||| x == 0x205F
    ||| x == 0x3000
}

/// Number of white space chars `s` starts with.
pub open spec fn leading_white_space(s: Seq<char>) -> nat
    decreases s.len(),
{
    if s.len() > 0 && is_white_space(s[0]) {
        1 + leading_white_space(s.drop_first())
    } else {
        0
    }
}

/// Number of white space chars `s` ends with.
pub open spec fn trailing_white_space(s: Seq<char>) -> nat
    decreases s.len(),
{
    if s.len() > 0 && is_white_space(s.last()) {
        1 + trailing_white_space(s.drop_last())
    } else {
        0
    }
}

/// What `str::trim_start` (std) returns: `s` without its leading white space.
pub open spec fn spec_trim_start(s: Seq<char>) -> Seq<char> {
    s.skip(leading_white_space(s) as int)
}

/// What `str::trim` (std) returns: `s` without its leading and trailing white
/// space.
pub open spec fn spec_trim(s: Seq<char>) -> Seq<char> {
    let t = spec_trim_start(s);
    t.take(t.len() - trailing_white_space(t))
}

/// What `str::to_lowercase` (std) returns: the Unicode lower-case mapping of
/// the string.
pub uninterp spec fn spec_to_lowercase(s: Seq<char>) -> Seq<char>;

/// What `char::is_alphanumeric` (std) answers: the char has the Unicode
/// `Alphabetic` or `Numeric` property.
pub uninterp spec fn spec_is_alphanumeric(c: char) -> bool;

/// `str::trim` (std). Claims that the result is the input without its
/// leading and trailing Unicode white space.
#[verifier::external_body]
pub(crate) fn str_trim(s: &str) -> (r: &str)
    ensures
        r@ == spec_trim(s@),
{
    s.trim()
}

/// `str::trim_start` (std). Claims that the result is the input without its
/// leading Unicode white space.
#[verifier::external_body]
pub(crate) fn str_trim_start(s: &str) -> (r: &str)
    ensures
        r@ == spec_trim_start(s@),
{
    s.trim_start()
}

/// ASCII upper case folded to lower case; every other char unchanged.
pub open spec fn ascii_lower(c: char) -> char {
    if is_ascii_upper(c) {
        ((c as u32) + 32) as char
    } else {
        c
    }
}

/// `str::to_lowercase` (std). Claims that the result is the named lower case
/// mapping of the input, and, for an all-ASCII input, that it maps `A`-`Z` to
/// `a`-`z` and keeps every other char; beyond ASCII it is left unstated.
#[verifier::external_body]
pub(crate) fn str_to_lowercase(s: &str) -> (r: String)
    ensures
        r@ == spec_to_lowercase(s@),
        all_ascii(s@) ==> r@ == s@.map_values(|c: char| ascii_lower(c)),
{
    s.to_lowercase()
}

/// `char::is_alphanumeric` (std). Claims that the answer is the named Unicode
/// property of the char, and that for an ASCII char it is true exactly for
/// `0`-`9`, `A`-`Z` and `a`-`z`.
#[verifier::external_body]
pub(crate) fn char_is_alphanumeric(c: char) -> (r: bool)
    ensures
        r == spec_is_alphanumeric(c),
        is_ascii_char(c) ==> r == is_ascii_alnum(c),
{
    c.is_alphanumeric()
}

} // verus!
