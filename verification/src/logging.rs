//! What the local log file may contain. Every record is rewritten by `scrub`
//! before it is written, so the file is safe to attach to a bug report by
//! construction. The file handling itself (opening, rotating, installing the
//! logger) lives with the application; this module decides what a line says,
//! which lines are rotated out, and what a payload description reveals.

pub mod idempotence;

use vstd::prelude::*;
use crate::text::{
    ascii_alnum, ascii_alpha, ascii_digit, ascii_hexdigit, chars_at_ignore_ascii_case,
    decimal, extend_chars, extend_range, extend_str, is_ascii_alnum, push_decimal, spec_trim_start, str_trim_start, is_ascii_alpha, is_ascii_digit,
    is_ascii_hexdigit, is_ascii_lower, occurs_at_ignore_ascii_case, eq_ignore_ascii_case, string_from_chars, to_chars,
};

verus! {

/// Replacement text for anything recognised as credential material.
pub const REDACTED: &'static str = "[REDACTED]";

/// Name of the current log file; rotated copies append `.1`, `.2`, ...
pub const LOG_FILE_NAME: &'static str = "trading-help.log";

/// 1 MB per file.
pub const MAX_FILE_BYTES: u64 = 1048576;

/// Two rotated copies (3 MB in total).
pub const ROTATED_COPIES: usize = 2;

/// Length of a Finnhub API token.
pub const BARE_TOKEN_LEN: usize = 40;

/// Number of markers after which a value is always a secret.
pub const MARKER_COUNT: usize = 9;

/// Number of key prefixes that are recognisable on their own.
pub const PREFIX_COUNT: usize = 1;

pub open spec fn redacted() -> Seq<char> {
    seq!['[', 'R', 'E', 'D', 'A', 'C', 'T', 'E', 'D', ']']
}

/// Markers after which the value is a secret, whatever it looks like:
/// `token=`, `key=`, `api_key=`, `apikey=`, `access_token=`,
/// `x-goog-api-key=`, `x-goog-api-key:`, `authorization:`, `bearer `.
pub open spec fn spec_marker(k: int) -> Seq<char> {
    if k == 0 {
        seq!['t', 'o', 'k', 'e', 'n', '=']
    } else if k == 1 {
        seq!['k', 'e', 'y', '=']
    } else if k == 2 {
        seq!['a', 'p', 'i', '_', 'k', 'e', 'y', '=']
    } else if k == 3 {
        seq!['a', 'p', 'i', 'k', 'e', 'y', '=']
    } else if k == 4 {
        seq!['a', 'c', 'c', 'e', 's', 's', '_', 't', 'o', 'k', 'e', 'n', '=']
    } else if k == 5 {
        seq!['x', '-', 'g', 'o', 'o', 'g', '-', 'a', 'p', 'i', '-', 'k', 'e', 'y', '=']
    } else if k == 6 {
        seq!['x', '-', 'g', 'o', 'o', 'g', '-', 'a', 'p', 'i', '-', 'k', 'e', 'y', ':']
    } else if k == 7 {
        seq!['a', 'u', 't', 'h', 'o', 'r', 'i', 'z', 'a', 't', 'i', 'o', 'n', ':']
    } else {
        seq!['b', 'e', 'a', 'r', 'e', 'r', ' ']
    }
}

/// Key prefixes recognisable without a surrounding name: `AIza` (Google).
pub open spec fn spec_prefix(k: int) -> Seq<char> {
    seq!['A', 'I', 'z', 'a']
}

/// Base64url and hex token characters; a value ends at `&`, quotes, white
/// space and braces.
pub open spec fn is_secret_char(c: char) -> bool {
    is_ascii_alnum(c) || c == '-' || c == '_' || c == '.' || c == '~' || c == '+' || c == '/'
        || c == '='
}

/// A marker only counts where the previous output character is not part of a
/// word, so "monkey=" is not "key=".
pub open spec fn ends_word(c: char) -> bool {
    !is_ascii_alnum(c) && c != '_'
}

/// Length of the run of secret characters starting at `j`.
pub open spec fn secret_run(s: Seq<char>, j: int) -> nat
    decreases s.len() - j,
{
    if j < 0 || j >= s.len() || !is_secret_char(s[j]) {
        0
    } else {
        1 + secret_run(s, j + 1)
    }
}

/// Length of the run of ASCII alphanumerics starting at `j`.
pub open spec fn alnum_run(s: Seq<char>, j: int) -> nat
    decreases s.len() - j,
{
    if j < 0 || j >= s.len() || !is_ascii_alnum(s[j]) {
        0
    } else {
        1 + alnum_run(s, j + 1)
    }
}

/// Among the first `k` markers, the longest one found at `i` (the later one on
/// a tie), compared ignoring ASCII case.
pub open spec fn longest_marker_upto(s: Seq<char>, i: int, k: int) -> Option<int>
    decreases k,
{
    if k <= 0 {
        None
    } else {
        let best = longest_marker_upto(s, i, k - 1);
        if occurs_at_ignore_ascii_case(s, spec_marker(k - 1), i) && (best is None || spec_marker(
            k - 1,
        ).len() >= spec_marker(best->0).len()) {
            Some(k - 1)
        } else {
            best
        }
    }
}

pub open spec fn longest_marker(s: Seq<char>, i: int) -> Option<int> {
    longest_marker_upto(s, i, MARKER_COUNT as int)
}

/// A bare Finnhub token at `i`: exactly 40 alphanumerics, at least one digit,
/// and a letter outside the hex alphabet (which rules out commit hashes).
pub open spec fn bare_token_at(s: Seq<char>, i: int) -> bool {
    &&& alnum_run(s, i) == BARE_TOKEN_LEN
    &&& exists|k: int| 0 <= k < BARE_TOKEN_LEN && is_ascii_digit(#[trigger] s[i + k])
    &&& exists|k: int|
        0 <= k < BARE_TOKEN_LEN && is_ascii_alpha(#[trigger] s[i + k]) && !is_ascii_hexdigit(
            s[i + k],
        )
}

/// A known key prefix at `i` followed by enough secret characters to be key
/// material rather than an ordinary word.
pub open spec fn prefixed_key_at(s: Seq<char>, i: int) -> bool {
    exists|p: int|
        0 <= p < PREFIX_COUNT && occurs_at_ignore_ascii_case(s, #[trigger] spec_prefix(p), i)
            && secret_run(s, i) >= spec_prefix(p).len() + 20
}

pub proof fn lemma_secret_run_bound(s: Seq<char>, j: int)
    requires
        0 <= j <= s.len(),
    ensures
        j + secret_run(s, j) <= s.len(),
        forall|k: int| j <= k < j + secret_run(s, j) ==> is_secret_char(#[trigger] s[k]),
    decreases s.len() - j,
{
    if j < s.len() && is_secret_char(s[j]) {
        lemma_secret_run_bound(s, j + 1);
    }
}

pub proof fn lemma_alnum_run_bound(s: Seq<char>, j: int)
    requires
        0 <= j <= s.len(),
    ensures
        j + alnum_run(s, j) <= s.len(),
        forall|k: int| j <= k < j + alnum_run(s, j) ==> is_ascii_alnum(#[trigger] s[k]),
    decreases s.len() - j,
{
    if j < s.len() && is_ascii_alnum(s[j]) {
        lemma_alnum_run_bound(s, j + 1);
    }
}

pub proof fn lemma_marker_nonempty(k: int)
    ensures
        spec_marker(k).len() > 0,
{
}

pub proof fn lemma_longest_marker_found(s: Seq<char>, i: int, k: int)
    ensures
        longest_marker_upto(s, i, k) matches Some(m) ==> 0 <= m < k && occurs_at_ignore_ascii_case(
            s,
            spec_marker(m),
            i,
        ),
    decreases k,
{
    if k > 0 {
        lemma_longest_marker_found(s, i, k - 1);
    }
}

/// The redacted form of `s` from position `i` on; `word_ended` says whether
/// the output so far ends outside a word (or is empty).
pub open spec fn scrub_from(s: Seq<char>, i: int, word_ended: bool) -> Seq<char>
    decreases s.len() - i,
{
    if i < 0 || i >= s.len() {
        Seq::empty()
    } else if word_ended && longest_marker(s, i) is Some {
        let m = spec_marker(longest_marker(s, i)->0);
        let j = i + m.len();
        proof {
            lemma_longest_marker_found(s, i, MARKER_COUNT as int);
            lemma_marker_nonempty(longest_marker(s, i)->0);
            lemma_secret_run_bound(s, j);
        }
        let value = secret_run(s, j);
        s.subrange(i, j) + (if value > 0 {
            redacted()
        } else {
            Seq::empty()
        }) + scrub_from(s, j + value, true)
    } else if word_ended && bare_token_at(s, i) {
        proof {
            lemma_alnum_run_bound(s, i);
        }
        redacted() + scrub_from(s, i + alnum_run(s, i), true)
    } else if word_ended && prefixed_key_at(s, i) {
        proof {
            lemma_secret_run_bound(s, i);
        }
        redacted() + scrub_from(s, i + secret_run(s, i), true)
    } else {
        seq![s[i]] + scrub_from(s, i + 1, ends_word(s[i]))
    }
}

/// The redacted form of a whole line.
pub open spec fn scrubbed(s: Seq<char>) -> Seq<char> {
    scrub_from(s, 0, true)
}

fn redacted_chars() -> (v: Vec<char>)
    ensures
        v@ == redacted(),
{
    let v = vec!['[', 'R', 'E', 'D', 'A', 'C', 'T', 'E', 'D', ']'];
    assert(v@ =~= redacted());
    v
}

fn marker_chars(k: usize) -> (v: Vec<char>)
    requires
        k < MARKER_COUNT,
    ensures
        v@ == spec_marker(k as int),
{
    let v = if k == 0 {
        vec!['t', 'o', 'k', 'e', 'n', '=']
    } else if k == 1 {
        vec!['k', 'e', 'y', '=']
    } else if k == 2 {
        vec!['a', 'p', 'i', '_', 'k', 'e', 'y', '=']
    } else if k == 3 {
        vec!['a', 'p', 'i', 'k', 'e', 'y', '=']
    } else if k == 4 {
        vec!['a', 'c', 'c', 'e', 's', 's', '_', 't', 'o', 'k', 'e', 'n', '=']
    } else if k == 5 {
        vec!['x', '-', 'g', 'o', 'o', 'g', '-', 'a', 'p', 'i', '-', 'k', 'e', 'y', '=']
    } else if k == 6 {
        vec!['x', '-', 'g', 'o', 'o', 'g', '-', 'a', 'p', 'i', '-', 'k', 'e', 'y', ':']
    } else if k == 7 {
        vec!['a', 'u', 't', 'h', 'o', 'r', 'i', 'z', 'a', 't', 'i', 'o', 'n', ':']
    } else {
        vec!['b', 'e', 'a', 'r', 'e', 'r', ' ']
    };
    assert(v@ =~= spec_marker(k as int));
    v
}

fn prefix_chars(k: usize) -> (v: Vec<char>)
    requires
        k < PREFIX_COUNT,
    ensures
        v@ == spec_prefix(k as int),
{
    let v = vec!['A', 'I', 'z', 'a'];
    assert(v@ =~= spec_prefix(k as int));
    v
}

fn is_secret(c: char) -> (r: bool)
    ensures
        r == is_secret_char(c),
{
    ascii_alnum(c) || c == '-' || c == '_' || c == '.' || c == '~' || c == '+' || c == '/' || c
        == '='
}

/// Length of the secret-character run starting at `j`.
fn secret_run_len(s: &Vec<char>, j: usize) -> (r: usize)
    requires
        j <= s@.len(),
    ensures
        r == secret_run(s@, j as int),
        j + r <= s@.len(),
{
    let n = s.len();
    let mut k: usize = j;
    while k < n && is_secret(s[k])
        invariant
            n == s@.len(),
            j <= k <= n,
            secret_run(s@, j as int) == (k - j) + secret_run(s@, k as int),
        decreases n - k,
    {
        k = k + 1;
    }
    k - j
}

/// Length of the alphanumeric run starting at `j`.
fn alnum_run_len(s: &Vec<char>, j: usize) -> (r: usize)
    requires
        j <= s@.len(),
    ensures
        r == alnum_run(s@, j as int),
        j + r <= s@.len(),
{
    let n = s.len();
    let mut k: usize = j;
    while k < n && ascii_alnum(s[k])
        invariant
            n == s@.len(),
            j <= k <= n,
            alnum_run(s@, j as int) == (k - j) + alnum_run(s@, k as int),
        decreases n - k,
    {
        k = k + 1;
    }
    k - j
}

/// The longest marker at `i`, if any. Matching takes the longest one, so a
/// shorter marker can never shadow a longer one that starts at the same place.
fn longest_marker_at(s: &Vec<char>, i: usize, markers: &Vec<Vec<char>>) -> (r: Option<usize>)
    requires
        i <= s@.len(),
        markers@.len() == MARKER_COUNT,
        forall|k: int| 0 <= k < MARKER_COUNT ==> (#[trigger] markers@[k])@ == spec_marker(k),
    ensures
        r matches Some(k) ==> k < MARKER_COUNT && longest_marker(s@, i as int) == Some(k as int),
        r is None ==> longest_marker(s@, i as int) is None,
{
    let mut best: Option<usize> = None;
    let mut k: usize = 0;
    while k < MARKER_COUNT
        invariant
            i <= s@.len(),
            k <= MARKER_COUNT,
            markers@.len() == MARKER_COUNT,
            forall|q: int| 0 <= q < MARKER_COUNT ==> (#[trigger] markers@[q])@ == spec_marker(q),
            best matches Some(b) ==> b < k && longest_marker_upto(s@, i as int, k as int) == Some(
                b as int,
            ),
            best is None ==> longest_marker_upto(s@, i as int, k as int) is None,
        decreases MARKER_COUNT - k,
    {
        let found = chars_at_ignore_ascii_case(s, i, &markers[k]);
        if found {
            match best {
                None => {
                    best = Some(k);
                },
                Some(b) => {
                    if markers[k].len() >= markers[b].len() {
                        best = Some(k);
                    }
                },
            }
        }
        k = k + 1;
    }
    best
}

/// Whether a bare 40-character token starts at `i`, given the length of the
/// alphanumeric run there.
fn bare_token_here(s: &Vec<char>, i: usize, run: usize) -> (r: bool)
    requires
        i + run <= s@.len(),
        run == alnum_run(s@, i as int),
    ensures
        r == bare_token_at(s@, i as int),
{
    if run != BARE_TOKEN_LEN {
        return false;
    }
    let mut has_digit = false;
    let mut has_non_hex_letter = false;
    let slen = s.len();
    let mut k: usize = 0;
    while k < BARE_TOKEN_LEN
        invariant
            slen == s@.len(),
            i + BARE_TOKEN_LEN <= s@.len(),
            k <= BARE_TOKEN_LEN,
            has_digit == exists|q: int| 0 <= q < k && is_ascii_digit(#[trigger] s@[i + q]),
            has_non_hex_letter == exists|q: int|
                0 <= q < k && is_ascii_alpha(#[trigger] s@[i + q]) && !is_ascii_hexdigit(
                    s@[i + q],
                ),
        decreases BARE_TOKEN_LEN - k,
    {
        let c = s[i + k];
        if ascii_digit(c) {
            has_digit = true;
        }
        if ascii_alpha(c) && !ascii_hexdigit(c) {
            has_non_hex_letter = true;
        }
        k = k + 1;
    }
    has_digit && has_non_hex_letter
}

/// Whether a known key prefix followed by key material starts at `i`, given
/// the length of the secret run there.
fn prefixed_key_here(s: &Vec<char>, i: usize, run: usize) -> (r: bool)
    requires
        i <= s@.len(),
        run == secret_run(s@, i as int),
    ensures
        r == prefixed_key_at(s@, i as int),
{
    let mut p: usize = 0;
    while p < PREFIX_COUNT
        invariant
            i <= s@.len(),
            run == secret_run(s@, i as int),
            p <= PREFIX_COUNT,
            forall|q: int|
                0 <= q < p ==> !(occurs_at_ignore_ascii_case(s@, #[trigger] spec_prefix(q), i as int)
                    && secret_run(s@, i as int) >= spec_prefix(q).len() + 20),
        decreases PREFIX_COUNT - p,
    {
        let prefix = prefix_chars(p);
        if chars_at_ignore_ascii_case(s, i, &prefix) && run >= prefix.len() + 20 {
            return true;
        }
        p = p + 1;
    }
    false
}

/// Rewrites anything that looks like credential material: the value after a
/// marker such as `token=` or `authorization:`, a bare 40-character token, and
/// a long run starting with a known key prefix. Runs on every record, so a
/// future call site that logs a key still cannot leak it.
pub fn scrub(input: &str) -> (out: String)
    ensures
        out@ == scrubbed(input@),
{
    let s = to_chars(input);
    let n = s.len();
    let mut markers: Vec<Vec<char>> = Vec::new();
    let mut k: usize = 0;
    while k < MARKER_COUNT
        invariant
            k <= MARKER_COUNT,
            markers@.len() == k,
            forall|q: int| 0 <= q < k ==> (#[trigger] markers@[q])@ == spec_marker(q),
        decreases MARKER_COUNT - k,
    {
        markers.push(marker_chars(k));
        k = k + 1;
    }
    let red = redacted_chars();
    let mut out: Vec<char> = Vec::new();
    let mut i: usize = 0;
    let mut word_ended = true;
    while i < n
        invariant
            n == s@.len(),
            i <= n,
            red@ == redacted(),
            markers@.len() == MARKER_COUNT,
            forall|q: int| 0 <= q < MARKER_COUNT ==> (#[trigger] markers@[q])@ == spec_marker(q),
            out@ + scrub_from(s@, i as int, word_ended) == scrubbed(s@),
        decreases n - i,
    {
        let ghost before = scrub_from(s@, i as int, word_ended);
        let ghost out0 = out@;
        if word_ended {
            match longest_marker_at(&s, i, &markers) {
                Some(m) => {
                    let mlen = markers[m].len();
                    proof {
                        lemma_longest_marker_found(s@, i as int, MARKER_COUNT as int);
                    }
                    extend_range(&mut out, &s, i, i + mlen);
                    let value = secret_run_len(&s, i + mlen);
                    if value > 0 {
                        extend_chars(&mut out, &red);
                    }
                    let next = i + mlen + value;
                    proof {
                        let piece = s@.subrange(i as int, i + mlen) + (if value > 0 {
                            redacted()
                        } else {
                            Seq::empty()
                        });
                        assert(before == piece + scrub_from(s@, next as int, true));
                        assert(out@ == out0 + piece);
                        assert(out0 + before =~= out@ + scrub_from(s@, next as int, true));
                    }
                    i = next;
                    word_ended = true;
                    continue ;
                },
                None => {},
            }
            let run = alnum_run_len(&s, i);
            if bare_token_here(&s, i, run) {
                extend_chars(&mut out, &red);
                proof {
                    assert(before == redacted() + scrub_from(s@, i + run, true));
                    assert(out0 + before =~= out@ + scrub_from(s@, i + run, true));
                }
                i = i + run;
                word_ended = true;
                continue ;
            }
            let secret = secret_run_len(&s, i);
            if prefixed_key_here(&s, i, secret) {
                extend_chars(&mut out, &red);
                proof {
                    assert(before == redacted() + scrub_from(s@, i + secret, true));
                    assert(out0 + before =~= out@ + scrub_from(s@, i + secret, true));
                }
                i = i + secret;
                word_ended = true;
                continue ;
            }
        }
        let c = s[i];
        out.push(c);
        let ended = !ascii_alnum(c) && c != '_';
        proof {
            assert(before == seq![c] + scrub_from(s@, i + 1, ended));
            assert(out0 + before =~= out@ + scrub_from(s@, i + 1, ended));
        }
        i = i + 1;
        word_ended = ended;
    }
    assert(out@ =~= scrubbed(s@));
    string_from_chars(&out)
}

// ---------------------------------------------------------------------------
// Rolling file decisions
// ---------------------------------------------------------------------------

/// Whether a file that already holds `written` bytes must be rotated before a
/// line of `line_len` bytes (plus its newline) is appended. Rotating before the
/// write keeps a single record from being split across two files, and an
/// empty file is never rotated, so an oversized line still gets written.
pub fn should_rotate(written: u64, line_len: u64, max_bytes: u64) -> (r: bool)
    ensures
        r == (written + line_len + 1 > max_bytes && written > 0),
{
    if written == 0 {
        return false;
    }
    if line_len >= u64::MAX - written {
        return true;
    }
    written + line_len + 1 > max_bytes
}

/// The renames of one rotation, in the order they must happen: `(from, to)`
/// where index 0 is the current file and `n` is its `n`-th rotated copy.
/// Shifts `.1 -> .2`, then the current file to `.1`; whatever was in the last
/// copy falls off the end.
pub open spec fn rotation_renames(copies: nat) -> Seq<(usize, usize)> {
    Seq::new(copies, |k: int| ((copies - k - 1) as usize, (copies - k) as usize))
}

pub fn rotation_plan(copies: usize) -> (plan: Vec<(usize, usize)>)
    ensures
        plan@ == rotation_renames(copies as nat),
{
    let mut plan: Vec<(usize, usize)> = Vec::new();
    let mut index: usize = copies;
    while index > 0
        invariant
            index <= copies,
            plan@ == rotation_renames(copies as nat).take((copies - index) as int),
        decreases index,
    {
        plan.push((index - 1, index));
        proof {
            assert(rotation_renames(copies as nat).take((copies - index + 1) as int) =~= rotation_renames(
                copies as nat,
            ).take((copies - index) as int).push(((index - 1) as usize, index)));
        }
        index = index - 1;
    }
    assert(rotation_renames(copies as nat).take(copies as int) =~= rotation_renames(copies as nat));
    plan
}

// ---------------------------------------------------------------------------
// Line contents
// ---------------------------------------------------------------------------

/// Number of occurrences of `c` in `s`.
pub open spec fn count_char(s: Seq<char>, c: char) -> nat
    decreases s.len(),
{
    if s.len() == 0 {
        0
    } else {
        count_char(s.drop_last(), c) + (if s.last() == c {
            1nat
        } else {
            0nat
        })
    }
}

fn count_of(s: &Vec<char>, c: char) -> (r: u64)
    ensures
        r == count_char(s@, c),
{
    let n = s.len();
    assert(n <= u64::MAX);
    let mut i: usize = 0;
    let mut count: u64 = 0;
    while i < n
        invariant
            n == s@.len(),
            n <= u64::MAX,
            i <= n,
            count == count_char(s@.take(i as int), c),
            count <= i,
        decreases n - i,
    {
        assert(s@.take(i + 1).drop_last() =~= s@.take(i as int));
        if s[i] == c {
            count = count + 1;
        }
        i = i + 1;
    }
    assert(s@.take(n as int) =~= s@);
    count
}

/// How a payload starts, by shape only: `code_fence`, `brace`, `bracket`,
/// `empty` or `prose`.
pub open spec fn payload_shape(trimmed: Seq<char>) -> Seq<char> {
    if trimmed.len() >= 3 && trimmed[0] == '`' && trimmed[1] == '`' && trimmed[2] == '`' {
        "code_fence"@
    } else if trimmed.len() >= 1 && trimmed[0] == '{' {
        "brace"@
    } else if trimmed.len() >= 1 && trimmed[0] == '[' {
        "bracket"@
    } else if trimmed.len() == 0 {
        "empty"@
    } else {
        "prose"@
    }
}

/// Describes an unparsable payload by shape, never by content: its byte
/// length, how it starts, and how many opening and closing braces it holds.
/// Model output is built from prompts containing third-party text, and the log
/// gets emailed.
pub fn describe_payload(payload: &str) -> (r: String)
    ensures
        r@ == "len="@ + decimal(payload.len() as nat) + " prefix="@ + payload_shape(
            spec_trim_start(payload@),
        ) + " braces="@ + decimal(count_char(payload@, '{')) + "/"@ + decimal(
            count_char(payload@, '}'),
        ),
{
    let trimmed = to_chars(str_trim_start(payload));
    let chars = to_chars(payload);
    let shape = if trimmed.len() >= 3 && trimmed[0] == '`' && trimmed[1] == '`' && trimmed[2]
        == '`' {
        "code_fence"
    } else if trimmed.len() >= 1 && trimmed[0] == '{' {
        "brace"
    } else if trimmed.len() >= 1 && trimmed[0] == '[' {
        "bracket"
    } else if trimmed.len() == 0 {
        "empty"
    } else {
        "prose"
    };
    let mut out: Vec<char> = Vec::new();
    extend_str(&mut out, "len=");
    push_decimal(&mut out, payload.len() as u64);
    extend_str(&mut out, " prefix=");
    extend_str(&mut out, shape);
    extend_str(&mut out, " braces=");
    push_decimal(&mut out, count_of(&chars, '{'));
    extend_str(&mut out, "/");
    push_decimal(&mut out, count_of(&chars, '}'));
    assert(shape@ == payload_shape(spec_trim_start(payload@)));
    assert(out@ =~= "len="@ + decimal(payload.len() as nat) + " prefix="@ + payload_shape(
        spec_trim_start(payload@),
    ) + " braces="@ + decimal(count_char(payload@, '{')) + "/"@ + decimal(
        count_char(payload@, '}'),
    ));
    string_from_chars(&out)
}

/// The first line of every run: what to compare against when a user reports a
/// problem. Key presence is a bool, never the value. The model name is part of
/// the line because a provider-side change to one model looks exactly like an
/// application bug.
pub fn log_startup(version: &str, model: &str, stored_tactics: usize, has_gemini_key: bool) -> (r:
    String)
    ensures
        r@ == "trading_help "@ + version@ + " started; model="@ + model@ + "; stored_tactics="@
            + decimal(stored_tactics as nat) + "; gemini_key_present="@ + (if has_gemini_key {
            "true"@
        } else {
            "false"@
        }),
{
    let mut out: Vec<char> = Vec::new();
    extend_str(&mut out, "trading_help ");
    extend_str(&mut out, version);
    extend_str(&mut out, " started; model=");
    extend_str(&mut out, model);
    extend_str(&mut out, "; stored_tactics=");
    push_decimal(&mut out, stored_tactics as u64);
    extend_str(&mut out, "; gemini_key_present=");
    extend_str(&mut out, if has_gemini_key { "true" } else { "false" });
    string_from_chars(&out)
}

/// Longest excerpt of a payload shown in a debug build.
pub const DEBUG_EXCERPT_CHARS: usize = 200;

/// The debug-build excerpt of a payload: at most its first 200 characters,
/// scrubbed like every log record.
pub fn debug_excerpt(label: &str, payload: &str) -> (r: String)
    ensures
        r@ == label@ + " (debug excerpt, max 200 chars): "@ + scrubbed(
            payload@.take(
                if payload@.len() < DEBUG_EXCERPT_CHARS {
                    payload@.len() as int
                } else {
                    DEBUG_EXCERPT_CHARS as int
                },
            ),
        ),
{
    let chars = to_chars(payload);
    let keep = if chars.len() < DEBUG_EXCERPT_CHARS {
        chars.len()
    } else {
        DEBUG_EXCERPT_CHARS
    };
    let mut excerpt: Vec<char> = Vec::new();
    extend_range(&mut excerpt, &chars, 0, keep);
    assert(excerpt@ =~= payload@.take(keep as int));
    let excerpt_text = string_from_chars(&excerpt);
    let scrubbed_excerpt = scrub(excerpt_text.as_str());
    let mut out: Vec<char> = Vec::new();
    extend_str(&mut out, label);
    extend_str(&mut out, " (debug excerpt, max 200 chars): ");
    extend_str(&mut out, scrubbed_excerpt.as_str());
    string_from_chars(&out)
}

// ---------------------------------------------------------------------------
// Laws of the redaction
// ---------------------------------------------------------------------------

proof fn lemma_no_marker_upto(s: Seq<char>, i: int, k: int)
    requires
        0 <= i < s.len(),
        !is_ascii_alnum(s[i]),
        k <= MARKER_COUNT,
    ensures
        longest_marker_upto(s, i, k) is None,
    decreases k,
{
    if k > 0 {
        lemma_no_marker_upto(s, i, k - 1);
        let m = spec_marker(k - 1);
        assert(is_ascii_lower(m[0]));
        assert(!eq_ignore_ascii_case(s[i + 0], m[0]));
    }
}

proof fn lemma_passthrough_from(s: Seq<char>, i: int, word_ended: bool)
    requires
        0 <= i <= s.len(),
        forall|k: int| 0 <= k < s.len() ==> !is_ascii_alnum(#[trigger] s[k]),
    ensures
        scrub_from(s, i, word_ended) == s.subrange(i, s.len() as int),
    decreases s.len() - i,
{
    if i < s.len() {
        lemma_no_marker_upto(s, i, MARKER_COUNT as int);
        assert(alnum_run(s, i) == 0);
        if prefixed_key_at(s, i) {
            let p = choose|p: int|
                0 <= p < PREFIX_COUNT && occurs_at_ignore_ascii_case(s, #[trigger] spec_prefix(p), i)
                    && secret_run(s, i) >= spec_prefix(p).len() + 20;
            assert(eq_ignore_ascii_case(s[i + 0], spec_prefix(p)[0]));
        }
        lemma_passthrough_from(s, i + 1, ends_word(s[i]));
        assert(s.subrange(i, s.len() as int) =~= seq![s[i]] + s.subrange(i + 1, s.len() as int));
    }
}

/// Text without any ASCII letter or digit (punctuation, white space, any
/// non-Latin script, emoji) passes through the scrubber unchanged.
pub proof fn law_text_without_ascii_alphanumerics_is_unchanged(s: Seq<char>)
    requires
        forall|k: int| 0 <= k < s.len() ==> !is_ascii_alnum(#[trigger] s[k]),
    ensures
        scrubbed(s) == s,
{
    lemma_passthrough_from(s, 0, true);
    assert(s.subrange(0, s.len() as int) =~= s);
}

proof fn lemma_alnum_run_all(s: Seq<char>, j: int)
    requires
        0 <= j <= s.len(),
        forall|k: int| j <= k < s.len() ==> is_ascii_alnum(#[trigger] s[k]),
    ensures
        alnum_run(s, j) == s.len() - j,
        secret_run(s, j) == s.len() - j,
    decreases s.len() - j,
{
    if j < s.len() {
        lemma_alnum_run_all(s, j + 1);
    }
}

proof fn lemma_secret_run_all(s: Seq<char>, j: int)
    requires
        0 <= j <= s.len(),
        forall|k: int| j <= k < s.len() ==> is_secret_char(#[trigger] s[k]),
    ensures
        secret_run(s, j) == s.len() - j,
    decreases s.len() - j,
{
    if j < s.len() {
        lemma_secret_run_all(s, j + 1);
    }
}

proof fn lemma_no_marker_at_google_prefix(s: Seq<char>, k: int)
    requires
        s.len() >= 4,
        s[0] == 'A',
        s[1] == 'I',
        k <= MARKER_COUNT,
    ensures
        longest_marker_upto(s, 0, k) is None,
    decreases k,
{
    if k > 0 {
        lemma_no_marker_at_google_prefix(s, k - 1);
        let m = spec_marker(k - 1);
        if occurs_at_ignore_ascii_case(s, m, 0) {
            assert(eq_ignore_ascii_case(s[0int + 0int], m[0]));
            assert(eq_ignore_ascii_case(s[0int + 1int], m[1]));
        }
    }
}

/// A Google API key - `AIza` followed by at least twenty more letters or
/// digits - is replaced as a whole, and nothing of it survives.
pub proof fn law_google_key_is_redacted_whole(key: Seq<char>)
    requires
        key.len() >= 24,
        key.subrange(0, 4) == spec_prefix(0),
        forall|k: int| 4 <= k < key.len() ==> is_ascii_alnum(#[trigger] key[k]),
    ensures
        scrubbed(key) == redacted(),
{
    assert(key[0] == key.subrange(0, 4)[0]);
    assert(key[1] == key.subrange(0, 4)[1]);
    assert(key[2] == key.subrange(0, 4)[2]);
    assert(key[3] == key.subrange(0, 4)[3]);
    assert forall|k: int| 0 <= k < key.len() implies is_ascii_alnum(#[trigger] key[k]) by {
        if k < 4 {
            assert(key[k] == key.subrange(0, 4)[k]);
        }
    }
    lemma_alnum_run_all(key, 0);
    lemma_no_marker_at_google_prefix(key, MARKER_COUNT as int);
    let n = key.len() as int;
    assert(scrub_from(key, n, true) == Seq::<char>::empty());
    if bare_token_at(key, 0) {
        assert(scrubbed(key) == redacted() + scrub_from(key, n, true));
    } else {
        assert(occurs_at_ignore_ascii_case(key, spec_prefix(0), 0));
        assert(prefixed_key_at(key, 0));
        assert(scrubbed(key) == redacted() + scrub_from(key, n, true));
    }
    assert(redacted() + Seq::<char>::empty() =~= redacted());
}

proof fn lemma_other_marker_absent(s: Seq<char>, k: int, q: int)
    requires
        0 <= k < MARKER_COUNT,
        0 <= q < MARKER_COUNT,
        q != k,
        s.len() >= spec_marker(k).len(),
        s.subrange(0, spec_marker(k).len() as int) == spec_marker(k),
    ensures
        !occurs_at_ignore_ascii_case(s, spec_marker(q), 0),
{
    let mk = spec_marker(k);
    let mq = spec_marker(q);
    assert forall|p: int| 0 <= p < mk.len() implies #[trigger] s[p] == mk[p] by {
        assert(s[p] == s.subrange(0, mk.len() as int)[p]);
    }
    if occurs_at_ignore_ascii_case(s, mq, 0) {
        assert(eq_ignore_ascii_case(s[0int + 0int], mq[0]));
        assert(eq_ignore_ascii_case(s[0int + 1int], mq[1]));
        assert(eq_ignore_ascii_case(s[0int + 2int], mq[2]));
        assert(eq_ignore_ascii_case(s[0int + 3int], mq[3]));
        if mq.len() > 4 && mk.len() > 4 {
            assert(eq_ignore_ascii_case(s[0int + 4int], mq[4]));
        }
        if mq.len() > 5 && mk.len() > 5 {
            assert(eq_ignore_ascii_case(s[0int + 5int], mq[5]));
        }
        if mq.len() > 6 && mk.len() > 6 {
            assert(eq_ignore_ascii_case(s[0int + 6int], mq[6]));
        }
        if mq.len() > 7 && mk.len() > 7 {
            assert(eq_ignore_ascii_case(s[0int + 7int], mq[7]));
        }
        if mq.len() > 14 && mk.len() > 14 {
            assert(eq_ignore_ascii_case(s[0int + 14int], mq[14]));
        }
    }
}

proof fn lemma_longest_marker_is(s: Seq<char>, k: int, j: int)
    requires
        0 <= k < MARKER_COUNT,
        0 <= j <= MARKER_COUNT,
        s.len() >= spec_marker(k).len(),
        s.subrange(0, spec_marker(k).len() as int) == spec_marker(k),
    ensures
        j <= k ==> longest_marker_upto(s, 0, j) is None,
        j > k ==> longest_marker_upto(s, 0, j) == Some(k),
    decreases j,
{
    if j > 0 {
        lemma_longest_marker_is(s, k, j - 1);
        if j - 1 != k {
            lemma_other_marker_absent(s, k, j - 1);
        } else {
            let mk = spec_marker(k);
            assert forall|p: int| 0 <= p < mk.len() implies eq_ignore_ascii_case(
                #[trigger] s[0 + p],
                mk[p],
            ) by {
                assert(s[p] == s.subrange(0, mk.len() as int)[p]);
            }
        }
    }
}

/// Whatever follows a secret marker (`token=`, `key=`, `authorization:`, ...)
/// up to the first character that cannot belong to a token is replaced, and
/// the marker itself is kept so the line stays readable.
pub proof fn law_value_after_marker_is_redacted(k: int, value: Seq<char>)
    requires
        0 <= k < MARKER_COUNT,
        value.len() > 0,
        forall|p: int| 0 <= p < value.len() ==> is_secret_char(#[trigger] value[p]),
    ensures
        scrubbed(spec_marker(k) + value) == spec_marker(k) + redacted(),
{
    let m = spec_marker(k);
    let s = m + value;
    assert(s.subrange(0, m.len() as int) =~= m);
    lemma_longest_marker_is(s, k, MARKER_COUNT as int);
    assert forall|p: int| m.len() <= p < s.len() implies is_secret_char(#[trigger] s[p]) by {
        assert(s[p] == value[p - m.len()]);
    }
    lemma_secret_run_all(s, m.len() as int);
    assert(scrub_from(s, s.len() as int, true) == Seq::<char>::empty());
    assert(scrubbed(s) == s.subrange(0, m.len() as int) + redacted() + scrub_from(
        s,
        s.len() as int,
        true,
    ));
    assert(scrubbed(s) =~= m + redacted());
}

// ---------------------------------------------------------------------------
// Record format
// ---------------------------------------------------------------------------

/// `n` in decimal, with leading zeros up to `width` digits.
pub open spec fn zero_padded(n: nat, width: nat) -> Seq<char> {
    let d = decimal(n);
    if d.len() >= width {
        d
    } else {
        Seq::new((width - d.len()) as nat, |_i: int| '0') + d
    }
}

/// `s` followed by spaces up to `width` characters.
pub open spec fn space_padded(s: Seq<char>, width: nat) -> Seq<char> {
    if s.len() >= width {
        s
    } else {
        s + Seq::new((width - s.len()) as nat, |_i: int| ' ')
    }
}

fn push_repeated(out: &mut Vec<char>, c: char, count: usize)
    ensures
        final(out)@ == old(out)@ + Seq::new(count as nat, |_i: int| c),
{
    let mut k: usize = 0;
    while k < count
        invariant
            k <= count,
            out@ == old(out)@ + Seq::new(k as nat, |_i: int| c),
        decreases count - k,
    {
        out.push(c);
        k = k + 1;
        assert(out@ =~= old(out)@ + Seq::new(k as nat, |_i: int| c));
    }
}

fn push_zero_padded(out: &mut Vec<char>, n: u64, width: usize)
    ensures
        final(out)@ == old(out)@ + zero_padded(n as nat, width as nat),
{
    let mut digits: Vec<char> = Vec::new();
    push_decimal(&mut digits, n);
    assert(digits@ =~= decimal(n as nat));
    if digits.len() < width {
        push_repeated(out, '0', width - digits.len());
    }
    extend_chars(out, &digits);
    assert(out@ =~= old(out)@ + zero_padded(n as nat, width as nat));
}

/// The UTC time of a record, e.g. `2026-07-29T18:00:05Z`.
pub open spec fn record_time(year: u32, month: u8, day: u8, hour: u8, minute: u8, second: u8) -> Seq<char> {
    zero_padded(year as nat, 4) + "-"@ + zero_padded(month as nat, 2) + "-"@ + zero_padded(day as nat, 2)
        + "T"@ + zero_padded(hour as nat, 2) + ":"@ + zero_padded(minute as nat, 2) + ":"@ + zero_padded(
        second as nat,
        2,
    ) + "Z"@
}

pub fn format_record_time(year: u32, month: u8, day: u8, hour: u8, minute: u8, second: u8) -> (r: String)
    ensures
        r@ == record_time(year, month, day, hour, minute, second),
{
    let mut out: Vec<char> = Vec::new();
    push_zero_padded(&mut out, year as u64, 4);
    extend_str(&mut out, "-");
    push_zero_padded(&mut out, month as u64, 2);
    extend_str(&mut out, "-");
    push_zero_padded(&mut out, day as u64, 2);
    extend_str(&mut out, "T");
    push_zero_padded(&mut out, hour as u64, 2);
    extend_str(&mut out, ":");
    push_zero_padded(&mut out, minute as u64, 2);
    extend_str(&mut out, ":");
    push_zero_padded(&mut out, second as u64, 2);
    extend_str(&mut out, "Z");
    assert(out@ =~= record_time(year, month, day, hour, minute, second));
    string_from_chars(&out)
}

/// The text of one record before scrubbing: time, level padded to five
/// characters, target, then the message.
pub open spec fn record_text(time: Seq<char>, level: Seq<char>, target: Seq<char>, message: Seq<char>) -> Seq<char> {
    time + " "@ + space_padded(level, 5) + " "@ + target + " - "@ + message
}

/// One line of the log file. Every record passes through `scrub`, so no
/// caller can write credential material by forgetting to, and nothing the
/// scrubber recognises is left in the line: scrubbing it again changes
/// nothing.
pub fn log_line(time: &str, level: &str, target: &str, message: &str) -> (r: String)
    ensures
        r@ == scrubbed(record_text(time@, level@, target@, message@)),
        scrubbed(r@) == r@,
{
    let mut out: Vec<char> = Vec::new();
    extend_str(&mut out, time);
    extend_str(&mut out, " ");
    let level_chars = to_chars(level);
    extend_chars(&mut out, &level_chars);
    if level_chars.len() < 5 {
        push_repeated(&mut out, ' ', 5 - level_chars.len());
    }
    extend_str(&mut out, " ");
    extend_str(&mut out, target);
    extend_str(&mut out, " - ");
    extend_str(&mut out, message);
    assert(out@ =~= record_text(time@, level@, target@, message@));
    let text = string_from_chars(&out);
    proof {
        idempotence::law_scrub_is_idempotent(text@);
    }
    scrub(text.as_str())
}

} // verus!
