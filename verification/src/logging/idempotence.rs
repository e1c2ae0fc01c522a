//! Scrubbing is idempotent: a scrubbed line passes the scrubber unchanged.
//! The proof follows a second pass over the output alongside the first pass
//! over the input: where the first pass copied text, the second sees the same
//! text up to the next `[REDACTED]`, which no marker, token or key can reach
//! into, and which the second pass copies as it is.

use vstd::prelude::*;
use crate::logging::{
    alnum_run, bare_token_at, ends_word, is_secret_char, lemma_alnum_run_bound,
    lemma_longest_marker_found, lemma_marker_nonempty, lemma_no_marker_upto, lemma_secret_run_bound,
    longest_marker, longest_marker_upto, prefixed_key_at, redacted, scrub_from, scrubbed, secret_run,
    spec_marker, spec_prefix, MARKER_COUNT, PREFIX_COUNT,
};
use crate::text::{eq_ignore_ascii_case, fold_code, is_ascii_alnum, is_ascii_digit, is_ascii_alpha, is_ascii_hexdigit, is_ascii_lower, occurs_at_ignore_ascii_case};

verus! {

/// What the proof needs of the markers: each starts with a lower-case letter
/// other than `r`, ends with `=`, `:` or a space, holds no `[` in any case,
/// and none is a prefix, ignoring case, of a longer one.
proof fn lemma_marker_facts()
    ensures
        forall|q: int| 0 <= q < MARKER_COUNT ==> is_ascii_lower(#[trigger] spec_marker(q)[0]) && spec_marker(q)[0] != 'r',
        forall|q: int| 0 <= q < MARKER_COUNT ==> {
            let m = #[trigger] spec_marker(q);
            m[m.len() - 1] == '=' || m[m.len() - 1] == ':' || m[m.len() - 1] == ' '
        },
        forall|q: int, x: int|
            0 <= q < MARKER_COUNT && 0 <= x < spec_marker(q).len() ==> fold_code(#[trigger] spec_marker(q)[x]) != 91,
        forall|a: int, b: int|
            0 <= a < MARKER_COUNT && 0 <= b < MARKER_COUNT && #[trigger] spec_marker(a).len() < #[trigger] spec_marker(b).len()
                ==> exists|x: int| 0 <= x < spec_marker(a).len() && fold_code(#[trigger] spec_marker(a)[x]) != fold_code(spec_marker(b)[x]),
{
    assert(spec_marker(0).len() == 6);
    assert forall|x: int| 0 <= x < 6 implies fold_code(#[trigger] spec_marker(0)[x]) != 91 by {
        assert(x == 0 || x == 1 || x == 2 || x == 3 || x == 4 || x == 5);
    }
    assert(spec_marker(1).len() == 4);
    assert forall|x: int| 0 <= x < 4 implies fold_code(#[trigger] spec_marker(1)[x]) != 91 by {
        assert(x == 0 || x == 1 || x == 2 || x == 3);
    }
    assert(spec_marker(2).len() == 8);
    assert forall|x: int| 0 <= x < 8 implies fold_code(#[trigger] spec_marker(2)[x]) != 91 by {
        assert(x == 0 || x == 1 || x == 2 || x == 3 || x == 4 || x == 5 || x == 6 || x == 7);
    }
    assert(spec_marker(3).len() == 7);
    assert forall|x: int| 0 <= x < 7 implies fold_code(#[trigger] spec_marker(3)[x]) != 91 by {
        assert(x == 0 || x == 1 || x == 2 || x == 3 || x == 4 || x == 5 || x == 6);
    }
    assert(spec_marker(4).len() == 13);
    assert forall|x: int| 0 <= x < 13 implies fold_code(#[trigger] spec_marker(4)[x]) != 91 by {
        assert(x == 0 || x == 1 || x == 2 || x == 3 || x == 4 || x == 5 || x == 6 || x == 7 || x == 8 || x == 9 || x == 10 || x == 11 || x == 12);
    }
    assert(spec_marker(5).len() == 15);
    assert forall|x: int| 0 <= x < 15 implies fold_code(#[trigger] spec_marker(5)[x]) != 91 by {
        assert(x == 0 || x == 1 || x == 2 || x == 3 || x == 4 || x == 5 || x == 6 || x == 7 || x == 8 || x == 9 || x == 10 || x == 11 || x == 12 || x == 13 || x == 14);
    }
    assert(spec_marker(6).len() == 15);
    assert forall|x: int| 0 <= x < 15 implies fold_code(#[trigger] spec_marker(6)[x]) != 91 by {
        assert(x == 0 || x == 1 || x == 2 || x == 3 || x == 4 || x == 5 || x == 6 || x == 7 || x == 8 || x == 9 || x == 10 || x == 11 || x == 12 || x == 13 || x == 14);
    }
    assert(spec_marker(7).len() == 14);
    assert forall|x: int| 0 <= x < 14 implies fold_code(#[trigger] spec_marker(7)[x]) != 91 by {
        assert(x == 0 || x == 1 || x == 2 || x == 3 || x == 4 || x == 5 || x == 6 || x == 7 || x == 8 || x == 9 || x == 10 || x == 11 || x == 12 || x == 13);
    }
    assert(spec_marker(8).len() == 7);
    assert forall|x: int| 0 <= x < 7 implies fold_code(#[trigger] spec_marker(8)[x]) != 91 by {
        assert(x == 0 || x == 1 || x == 2 || x == 3 || x == 4 || x == 5 || x == 6);
    }
    assert forall|q: int, x: int| 0 <= q < MARKER_COUNT && 0 <= x < spec_marker(q).len() implies fold_code(
        #[trigger] spec_marker(q)[x],
    ) != 91 by {
        assert(q == 0 || q == 1 || q == 2 || q == 3 || q == 4 || q == 5 || q == 6 || q == 7 || q == 8);
    }
    assert(fold_code(spec_marker(0)[0]) != fold_code(spec_marker(2)[0]));
    assert(fold_code(spec_marker(0)[0]) != fold_code(spec_marker(3)[0]));
    assert(fold_code(spec_marker(0)[0]) != fold_code(spec_marker(4)[0]));
    assert(fold_code(spec_marker(0)[0]) != fold_code(spec_marker(5)[0]));
    assert(fold_code(spec_marker(0)[0]) != fold_code(spec_marker(6)[0]));
    assert(fold_code(spec_marker(0)[0]) != fold_code(spec_marker(7)[0]));
    assert(fold_code(spec_marker(0)[0]) != fold_code(spec_marker(8)[0]));
    assert(fold_code(spec_marker(1)[0]) != fold_code(spec_marker(0)[0]));
    assert(fold_code(spec_marker(1)[0]) != fold_code(spec_marker(2)[0]));
    assert(fold_code(spec_marker(1)[0]) != fold_code(spec_marker(3)[0]));
    assert(fold_code(spec_marker(1)[0]) != fold_code(spec_marker(4)[0]));
    assert(fold_code(spec_marker(1)[0]) != fold_code(spec_marker(5)[0]));
    assert(fold_code(spec_marker(1)[0]) != fold_code(spec_marker(6)[0]));
    assert(fold_code(spec_marker(1)[0]) != fold_code(spec_marker(7)[0]));
    assert(fold_code(spec_marker(1)[0]) != fold_code(spec_marker(8)[0]));
    assert(fold_code(spec_marker(2)[1]) != fold_code(spec_marker(4)[1]));
    assert(fold_code(spec_marker(2)[0]) != fold_code(spec_marker(5)[0]));
    assert(fold_code(spec_marker(2)[0]) != fold_code(spec_marker(6)[0]));
    assert(fold_code(spec_marker(2)[1]) != fold_code(spec_marker(7)[1]));
    assert(fold_code(spec_marker(3)[3]) != fold_code(spec_marker(2)[3]));
    assert(fold_code(spec_marker(3)[1]) != fold_code(spec_marker(4)[1]));
    assert(fold_code(spec_marker(3)[0]) != fold_code(spec_marker(5)[0]));
    assert(fold_code(spec_marker(3)[0]) != fold_code(spec_marker(6)[0]));
    assert(fold_code(spec_marker(3)[1]) != fold_code(spec_marker(7)[1]));
    assert(fold_code(spec_marker(4)[0]) != fold_code(spec_marker(5)[0]));
    assert(fold_code(spec_marker(4)[0]) != fold_code(spec_marker(6)[0]));
    assert(fold_code(spec_marker(4)[1]) != fold_code(spec_marker(7)[1]));
    assert(fold_code(spec_marker(7)[0]) != fold_code(spec_marker(5)[0]));
    assert(fold_code(spec_marker(7)[0]) != fold_code(spec_marker(6)[0]));
    assert(fold_code(spec_marker(8)[0]) != fold_code(spec_marker(2)[0]));
    assert(fold_code(spec_marker(8)[0]) != fold_code(spec_marker(4)[0]));
    assert(fold_code(spec_marker(8)[0]) != fold_code(spec_marker(5)[0]));
    assert(fold_code(spec_marker(8)[0]) != fold_code(spec_marker(6)[0]));
    assert(fold_code(spec_marker(8)[0]) != fold_code(spec_marker(7)[0]));
    assert forall|a: int, b: int|
        0 <= a < MARKER_COUNT && 0 <= b < MARKER_COUNT && #[trigger] spec_marker(a).len() < #[trigger] spec_marker(b).len()
        implies exists|x: int| 0 <= x < spec_marker(a).len() && fold_code(#[trigger] spec_marker(a)[x]) != fold_code(spec_marker(b)[x]) by {
        assert(a == 0 || a == 1 || a == 2 || a == 3 || a == 4 || a == 5 || a == 6 || a == 7 || a == 8);
        assert(b == 0 || b == 1 || b == 2 || b == 3 || b == 4 || b == 5 || b == 6 || b == 7 || b == 8);
    }
}

proof fn lemma_marker_present(s: Seq<char>, i: int, q: int, k: int)
    requires
        0 <= q < k,
        occurs_at_ignore_ascii_case(s, spec_marker(q), i),
    ensures
        longest_marker_upto(s, i, k) is Some,
    decreases k,
{
    if k - 1 > q {
        lemma_marker_present(s, i, q, k - 1);
    }
}

proof fn lemma_longest_marker_same(t: Seq<char>, k: int, s: Seq<char>, i: int, n: int)
    requires
        forall|q: int|
            0 <= q < n ==> occurs_at_ignore_ascii_case(t, #[trigger] spec_marker(q), k)
                == occurs_at_ignore_ascii_case(s, spec_marker(q), i),
    ensures
        longest_marker_upto(t, k, n) == longest_marker_upto(s, i, n),
    decreases n,
{
    if n > 0 {
        lemma_longest_marker_same(t, k, s, i, n - 1);
        assert(occurs_at_ignore_ascii_case(t, spec_marker(n - 1), k) == occurs_at_ignore_ascii_case(
            s,
            spec_marker(n - 1),
            i,
        ));
    }
}

proof fn lemma_no_marker_starting(s: Seq<char>, i: int, n: int)
    requires
        0 <= i < s.len(),
        n <= MARKER_COUNT,
        forall|q: int| 0 <= q < MARKER_COUNT ==> !eq_ignore_ascii_case(s[i], #[trigger] spec_marker(q)[0]),
    ensures
        longest_marker_upto(s, i, n) is None,
    decreases n,
{
    if n > 0 {
        lemma_no_marker_starting(s, i, n - 1);
        let m = spec_marker(n - 1);
        assert(!eq_ignore_ascii_case(s[i], m[0]));
        assert(!eq_ignore_ascii_case(s[i + 0], m[0]));
    }
}

proof fn lemma_secret_run_at_least(s: Seq<char>, j: int, n: int)
    requires
        0 <= j,
        0 <= n,
        j + n <= s.len(),
        forall|x: int| j <= x < j + n ==> is_secret_char(#[trigger] s[x]),
    ensures
        secret_run(s, j) >= n,
    decreases n,
{
    if n > 0 {
        assert(is_secret_char(s[j]));
        lemma_secret_run_at_least(s, j + 1, n - 1);
    }
}

proof fn lemma_alnum_run_is(s: Seq<char>, j: int, n: int)
    requires
        0 <= j,
        0 <= n,
        j + n <= s.len(),
        forall|x: int| j <= x < j + n ==> is_ascii_alnum(#[trigger] s[x]),
        j + n == s.len() || !is_ascii_alnum(s[j + n]),
    ensures
        alnum_run(s, j) == n,
    decreases n,
{
    if n > 0 {
        assert(is_ascii_alnum(s[j]));
        lemma_alnum_run_is(s, j + 1, n - 1);
    }
}

proof fn lemma_alnum_run_end(s: Seq<char>, j: int)
    requires
        0 <= j <= s.len(),
    ensures
        j + alnum_run(s, j) == s.len() || !is_ascii_alnum(s[j + alnum_run(s, j)]),
    decreases s.len() - j,
{
    if j < s.len() && is_ascii_alnum(s[j]) {
        lemma_alnum_run_end(s, j + 1);
    }
}

/// A char that cannot be part of a secret is copied as it is.
proof fn lemma_plain_char_passes(s: Seq<char>, j: int, we: bool)
    requires
        0 <= j < s.len(),
        !is_secret_char(s[j]),
    ensures
        scrub_from(s, j, we) == seq![s[j]] + scrub_from(s, j + 1, ends_word(s[j])),
{
    lemma_no_marker_upto(s, j, MARKER_COUNT as int);
    assert(alnum_run(s, j) == 0);
    if prefixed_key_at(s, j) {
        let p = choose|p: int|
            0 <= p < PREFIX_COUNT && occurs_at_ignore_ascii_case(s, #[trigger] spec_prefix(p), j)
                && secret_run(s, j) >= spec_prefix(p).len() + 20;
        assert(eq_ignore_ascii_case(s[j + 0], spec_prefix(p)[0]));
    }
}

/// The redaction text passes the scrubber unchanged, from any state.
proof fn lemma_redacted_passes(t: Seq<char>, p: int, we: bool)
    requires
        0 <= p,
        p + 10 <= t.len(),
        t.subrange(p, p + 10) == redacted(),
    ensures
        scrub_from(t, p, we) == redacted() + scrub_from(t, p + 10, true),
{
    let r = t.subrange(p, p + 10);
    assert(t[p] == r[0] && t[p + 1] == r[1] && t[p + 2] == r[2] && t[p + 3] == r[3] && t[p + 4] == r[4]);
    assert(t[p + 5] == r[5] && t[p + 6] == r[6] && t[p + 7] == r[7] && t[p + 8] == r[8] && t[p + 9] == r[9]);
    assert(t[p] == '[' && t[p + 1] == 'R' && t[p + 2] == 'E' && t[p + 3] == 'D' && t[p + 4] == 'A');
    assert(t[p + 5] == 'C' && t[p + 6] == 'T' && t[p + 7] == 'E' && t[p + 8] == 'D' && t[p + 9] == ']');
    lemma_marker_facts();
    let s9 = scrub_from(t, p + 10, true);
    assert(scrub_from(t, p + 9, false) == seq![']'] + s9);
    assert(scrub_from(t, p + 8, false) == seq!['D'] + scrub_from(t, p + 9, false));
    assert(scrub_from(t, p + 7, false) == seq!['E'] + scrub_from(t, p + 8, false));
    assert(scrub_from(t, p + 6, false) == seq!['T'] + scrub_from(t, p + 7, false));
    assert(scrub_from(t, p + 5, false) == seq!['C'] + scrub_from(t, p + 6, false));
    assert(scrub_from(t, p + 4, false) == seq!['A'] + scrub_from(t, p + 5, false));
    assert(scrub_from(t, p + 3, false) == seq!['D'] + scrub_from(t, p + 4, false));
    assert(scrub_from(t, p + 2, false) == seq!['E'] + scrub_from(t, p + 3, false));
    // 'R' right after '[': no marker, an 8-letter word, and not the key prefix
    assert forall|q: int| 0 <= q < MARKER_COUNT implies !eq_ignore_ascii_case(
        t[p + 1],
        #[trigger] spec_marker(q)[0],
    ) by {
        assert(is_ascii_lower(spec_marker(q)[0]));
    }
    lemma_no_marker_starting(t, p + 1, MARKER_COUNT as int);
    lemma_alnum_run_is(t, p + 1, 8);
    if prefixed_key_at(t, p + 1) {
        let k = choose|k: int|
            0 <= k < PREFIX_COUNT && occurs_at_ignore_ascii_case(t, #[trigger] spec_prefix(k), p + 1)
                && secret_run(t, p + 1) >= spec_prefix(k).len() + 20;
        assert(eq_ignore_ascii_case(t[p + 1 + 0], spec_prefix(k)[0]));
    }
    assert(scrub_from(t, p + 1, true) == seq!['R'] + scrub_from(t, p + 2, false));
    lemma_plain_char_passes(t, p, we);
    assert(scrub_from(t, p, we) == seq!['['] + scrub_from(t, p + 1, true));
    assert(scrub_from(t, p, we) =~= redacted() + s9);
}

pub open spec fn no_bracket_before(u: Seq<char>, n: int) -> bool {
    forall|q: int| 0 <= q < n ==> u[q] != '['
}

/// The first `n` chars of `u`, the scrubbed text of `s` from `i` on, are
/// those of `s`; `u` ends where `s` does; and a `[` at `n` that `s` does not
/// have opens a redaction, which only starts outside a word.
pub open spec fn agrees_up_to(s: Seq<char>, i: int, we: bool, u: Seq<char>, n: int) -> bool {
    &&& i + n <= s.len()
    &&& forall|q: int| 0 <= q < n ==> u[q] == s[i + q]
    &&& n == u.len() ==> i + n == s.len()
    &&& (n < u.len() && u[n] == '[') ==> (s[i + n] == '[' || (n == 0 && we) || (n > 0 && ends_word(
        u[n - 1],
    )))
}

proof fn lemma_output_agrees(s: Seq<char>, i: int, we: bool)
    requires
        0 <= i <= s.len(),
    ensures
        forall|n: int|
            0 <= n <= scrub_from(s, i, we).len() && #[trigger] no_bracket_before(scrub_from(s, i, we), n)
                ==> agrees_up_to(s, i, we, scrub_from(s, i, we), n),
    decreases s.len() - i,
{
    let u = scrub_from(s, i, we);
    if i >= s.len() {
        assert forall|n: int| 0 <= n <= u.len() && #[trigger] no_bracket_before(u, n) implies agrees_up_to(
            s,
            i,
            we,
            u,
            n,
        ) by {}
    } else if we && longest_marker(s, i) is Some {
        let m = longest_marker(s, i)->0;
        lemma_longest_marker_found(s, i, MARKER_COUNT as int);
        lemma_marker_nonempty(m);
        lemma_marker_facts();
        let mk = spec_marker(m);
        let j = i + mk.len();
        lemma_secret_run_bound(s, j);
        let v = secret_run(s, j);
        let rest = scrub_from(s, j + v, true);
        lemma_output_agrees(s, j + v, true);
        let r = if v > 0 {
            redacted()
        } else {
            Seq::<char>::empty()
        };
        assert(u == s.subrange(i, j) + r + rest);
        assert(eq_ignore_ascii_case(s[i + (mk.len() - 1)], mk[mk.len() - 1]));
        assert(ends_word(s[j - 1]));
        assert forall|n: int| 0 <= n <= u.len() && #[trigger] no_bracket_before(u, n) implies agrees_up_to(
            s,
            i,
            we,
            u,
            n,
        ) by {
            if n <= mk.len() {
                assert forall|q: int| 0 <= q < n implies u[q] == s[i + q] by {
                    assert(u[q] == s.subrange(i, j)[q]);
                }
                if n == mk.len() && n < u.len() && u[n] == '[' {
                    assert(u[n - 1] == s.subrange(i, j)[n - 1]);
                }
                if n == u.len() {
                    assert(no_bracket_before(rest, 0));
                }
            } else {
                if v > 0 {
                    assert(u[mk.len() as int] == '[');
                }
                let n2 = n - mk.len();
                assert forall|q: int| 0 <= q < n2 implies rest[q] != '[' by {
                    assert(u[mk.len() + q] == rest[q]);
                }
                assert(no_bracket_before(rest, n2));
                assert forall|q: int| 0 <= q < n implies u[q] == s[i + q] by {
                    if q < mk.len() {
                        assert(u[q] == s.subrange(i, j)[q]);
                    } else {
                        assert(u[q] == rest[q - mk.len()]);
                    }
                }
                if n < u.len() && u[n] == '[' {
                    assert(u[n] == rest[n2]);
                    if n2 > 0 {
                        assert(u[n - 1] == rest[n2 - 1]);
                    } else {
                        assert(u[n - 1] == s.subrange(i, j)[n - 1]);
                    }
                }
            }
        }
    } else if we && bare_token_at(s, i) {
        assert(u == redacted() + scrub_from(s, i + alnum_run(s, i), true));
        assert(u[0] == '[');
        assert forall|n: int| 0 <= n <= u.len() && #[trigger] no_bracket_before(u, n) implies agrees_up_to(
            s,
            i,
            we,
            u,
            n,
        ) by {
            if n > 0 {
                assert(u[0] != '[');
            }
        }
    } else if we && prefixed_key_at(s, i) {
        assert(u == redacted() + scrub_from(s, i + secret_run(s, i), true));
        assert(u[0] == '[');
        assert forall|n: int| 0 <= n <= u.len() && #[trigger] no_bracket_before(u, n) implies agrees_up_to(
            s,
            i,
            we,
            u,
            n,
        ) by {
            if n > 0 {
                assert(u[0] != '[');
            }
        }
    } else {
        let rest = scrub_from(s, i + 1, ends_word(s[i]));
        lemma_output_agrees(s, i + 1, ends_word(s[i]));
        assert(u == seq![s[i]] + rest);
        assert forall|n: int| 0 <= n <= u.len() && #[trigger] no_bracket_before(u, n) implies agrees_up_to(
            s,
            i,
            we,
            u,
            n,
        ) by {
            if n > 0 {
                let n2 = n - 1;
                assert forall|q: int| 0 <= q < n2 implies rest[q] != '[' by {
                    assert(u[q + 1] == rest[q]);
                }
                assert(no_bracket_before(rest, n2));
                assert forall|q: int| 0 <= q < n implies u[q] == s[i + q] by {
                    if q > 0 {
                        assert(u[q] == rest[q - 1]);
                    }
                }
                if n < u.len() && u[n] == '[' {
                    assert(u[n] == rest[n2]);
                    if n2 > 0 {
                        assert(u[n - 1] == rest[n2 - 1]);
                    }
                }
            }
        }
    }
}

/// At a marker of the first pass, the second pass finds the same marker and,
/// after it, no value: either the redaction text or a char that ends values.
proof fn lemma_marker_step(s: Seq<char>, i: int, we: bool, t: Seq<char>, k: int)
    requires
        0 <= i < s.len(),
        0 <= k <= t.len(),
        t.subrange(k, t.len() as int) == scrub_from(s, i, we),
        we && longest_marker(s, i) is Some,
    ensures
        longest_marker(t, k) == longest_marker(s, i),
        ({
            let mk = spec_marker(longest_marker(s, i)->0);
            &&& k + mk.len() <= t.len()
            &&& t.subrange(k, k + mk.len()) == s.subrange(i, i + mk.len())
            &&& secret_run(t, k + mk.len()) == 0
        }),
{
    let u = scrub_from(s, i, we);
    assert(t.len() == k + u.len());
    assert forall|x: int| 0 <= x < u.len() implies #[trigger] t[k + x] == u[x] by {
        assert(t.subrange(k, t.len() as int)[x] == t[k + x]);
    }
    let m = longest_marker(s, i)->0;
    lemma_longest_marker_found(s, i, MARKER_COUNT as int);
    lemma_marker_nonempty(m);
    lemma_marker_facts();
    let mk = spec_marker(m);
    let j = i + mk.len();
    lemma_secret_run_bound(s, j);
    let v = secret_run(s, j);
    let rest = scrub_from(s, j + v, true);
    let r = if v > 0 {
        redacted()
    } else {
        Seq::<char>::empty()
    };
    assert(u == s.subrange(i, j) + r + rest);
    assert forall|x: int| 0 <= x < mk.len() implies #[trigger] t[k + x] == s[i + x] by {
        assert(u[x] == s.subrange(i, j)[x]);
    }
    assert forall|q: int| 0 <= q < MARKER_COUNT implies occurs_at_ignore_ascii_case(
        t,
        #[trigger] spec_marker(q),
        k,
    ) == occurs_at_ignore_ascii_case(s, spec_marker(q), i) by {
        let mq = spec_marker(q);
        if mq.len() <= mk.len() {
            if occurs_at_ignore_ascii_case(t, mq, k) {
                assert forall|x: int| 0 <= x < mq.len() implies eq_ignore_ascii_case(
                    #[trigger] s[i + x],
                    mq[x],
                ) by {
                    assert(eq_ignore_ascii_case(t[k + x], mq[x]));
                }
            }
            if occurs_at_ignore_ascii_case(s, mq, i) {
                assert forall|x: int| 0 <= x < mq.len() implies eq_ignore_ascii_case(
                    #[trigger] t[k + x],
                    mq[x],
                ) by {
                    assert(eq_ignore_ascii_case(s[i + x], mq[x]));
                }
            }
        } else {
            let x = choose|x: int| 0 <= x < mk.len() && fold_code(#[trigger] mk[x]) != fold_code(mq[x]);
            assert(eq_ignore_ascii_case(s[i + x], mk[x]));
            if occurs_at_ignore_ascii_case(s, mq, i) {
                assert(eq_ignore_ascii_case(s[i + x], mq[x]));
            }
            if occurs_at_ignore_ascii_case(t, mq, k) {
                assert(eq_ignore_ascii_case(t[k + x], mq[x]));
            }
        }
    }
    lemma_longest_marker_same(t, k, s, i, MARKER_COUNT as int);
    let jt = k + mk.len();
    assert(t.subrange(k, jt) =~= s.subrange(i, j));
    if v > 0 {
        assert(t[jt] == u[mk.len() as int]);
    } else if j < s.len() {
        lemma_plain_char_passes(s, j, true);
        assert(rest[0] == s[j]);
        assert(t[jt] == u[mk.len() as int]);
    } else {
        assert(rest.len() == 0);
    }
}

/// Where the first pass copied a char, the second pass copies it too: the
/// text it sees from there agrees with the input up to the next `[`, and no
/// marker, token or key reaches a `[`.
proof fn lemma_plain_step(s: Seq<char>, i: int, we: bool, t: Seq<char>, k: int)
    requires
        0 <= i < s.len(),
        0 <= k <= t.len(),
        t.subrange(k, t.len() as int) == scrub_from(s, i, we),
        !(we && longest_marker(s, i) is Some),
        !(we && bare_token_at(s, i)),
        !(we && prefixed_key_at(s, i)),
    ensures
        k < t.len(),
        t[k] == s[i],
        scrub_from(t, k, we) == seq![t[k]] + scrub_from(t, k + 1, ends_word(t[k])),
{
    let u = scrub_from(s, i, we);
    assert(t.len() == k + u.len());
    assert forall|x: int| 0 <= x < u.len() implies #[trigger] t[k + x] == u[x] by {
        assert(t.subrange(k, t.len() as int)[x] == t[k + x]);
    }
    let c = s[i];
    let ew = ends_word(c);
    let rest = scrub_from(s, i + 1, ew);
    assert(u == seq![c] + rest);
    assert(t[k + 0] == u[0]);
    assert(t[k] == c);
    assert forall|x: int| 0 <= x < rest.len() implies #[trigger] t[k + 1 + x] == rest[x] by {
        assert(t[k + (1 + x)] == u[1 + x]);
    }
    if we {
        lemma_output_agrees(s, i + 1, ew);
        lemma_marker_facts();
        if longest_marker(t, k) is Some {
            let q = longest_marker(t, k)->0;
            lemma_longest_marker_found(t, k, MARKER_COUNT as int);
            lemma_marker_nonempty(q);
            let mq = spec_marker(q);
            let l = mq.len();
            assert forall|x: int| 0 <= x < l - 1 implies rest[x] != '[' by {
                assert(eq_ignore_ascii_case(t[k + (x + 1)], mq[x + 1]));
                assert(t[k + 1 + x] == rest[x]);
            }
            assert(no_bracket_before(rest, l - 1));
            assert(agrees_up_to(s, i + 1, ew, rest, l - 1));
            assert forall|x: int| 0 <= x < l implies eq_ignore_ascii_case(#[trigger] s[i + x], mq[x]) by {
                assert(eq_ignore_ascii_case(t[k + x], mq[x]));
                if x > 0 {
                    assert(t[k + 1 + (x - 1)] == rest[x - 1]);
                    assert(rest[x - 1] == s[i + 1 + (x - 1)]);
                }
            }
            lemma_marker_present(s, i, q, MARKER_COUNT as int);
            assert(false);
        }
        if bare_token_at(t, k) {
            lemma_alnum_run_bound(t, k);
            lemma_alnum_run_end(t, k);
            assert forall|x: int| 0 <= x < 39 implies rest[x] != '[' by {
                assert(is_ascii_alnum(t[k + 1 + x]));
            }
            assert(no_bracket_before(rest, 39));
            assert(agrees_up_to(s, i + 1, ew, rest, 39));
            assert forall|x: int| 0 <= x < 40 implies #[trigger] s[i + x] == t[k + x] by {
                if x > 0 {
                    assert(t[k + 1 + (x - 1)] == rest[x - 1]);
                    assert(rest[x - 1] == s[i + 1 + (x - 1)]);
                }
            }
            if k + 40 < t.len() {
                assert(t[k + 1 + 39] == rest[39]);
                if rest[39] != '[' {
                    assert(no_bracket_before(rest, 40));
                    assert(agrees_up_to(s, i + 1, ew, rest, 40));
                    assert(s[i + 1 + 39] == rest[39]);
                } else {
                    assert(t[k + 1 + 38] == rest[38]);
                    assert(is_ascii_alnum(t[k + 39]));
                }
                assert(!is_ascii_alnum(s[i + 40]));
            }
            assert forall|x: int| i <= x < i + 40 implies is_ascii_alnum(#[trigger] s[x]) by {
                assert(s[i + (x - i)] == t[k + (x - i)]);
            }
            lemma_alnum_run_is(s, i, 40);
            let d = choose|x: int| 0 <= x < 40 && is_ascii_digit(#[trigger] t[k + x]);
            assert(is_ascii_digit(s[i + d]));
            let h = choose|x: int| 0 <= x < 40 && is_ascii_alpha(#[trigger] t[k + x]) && !is_ascii_hexdigit(t[k + x]);
            assert(is_ascii_alpha(s[i + h]) && !is_ascii_hexdigit(s[i + h]));
            assert(bare_token_at(s, i));
            assert(false);
        }
        if prefixed_key_at(t, k) {
            let p = choose|p: int|
                0 <= p < PREFIX_COUNT && occurs_at_ignore_ascii_case(t, #[trigger] spec_prefix(p), k)
                    && secret_run(t, k) >= spec_prefix(p).len() + 20;
            lemma_secret_run_bound(t, k);
            let pl: int = spec_prefix(p).len() as int;
            assert forall|x: int| 0 <= x < pl + 19 implies rest[x] != '[' by {
                assert(is_secret_char(t[k + 1 + x]));
            }
            assert(no_bracket_before(rest, pl + 19));
            assert(agrees_up_to(s, i + 1, ew, rest, pl + 19));
            assert forall|x: int| 0 <= x < pl + 20 implies #[trigger] s[i + x] == t[k + x] by {
                if x > 0 {
                    assert(t[k + 1 + (x - 1)] == rest[x - 1]);
                    assert(rest[x - 1] == s[i + 1 + (x - 1)]);
                }
            }
            assert forall|x: int| i <= x < i + pl + 20 implies is_secret_char(#[trigger] s[x]) by {
                assert(s[i + (x - i)] == t[k + (x - i)]);
            }
            lemma_secret_run_at_least(s, i, pl + 20);
            assert forall|x: int| 0 <= x < pl implies eq_ignore_ascii_case(
                #[trigger] s[i + x],
                spec_prefix(p)[x],
            ) by {
                assert(eq_ignore_ascii_case(t[k + x], spec_prefix(p)[x]));
            }
            assert(prefixed_key_at(s, i));
            assert(false);
        }
    }
}

/// A second pass that meets, at `k`, the rest of the first pass's output from
/// `i`, in the same state, copies that rest unchanged.
proof fn lemma_rescrub(s: Seq<char>, i: int, we: bool, t: Seq<char>, k: int)
    requires
        0 <= i <= s.len(),
        0 <= k <= t.len(),
        t.subrange(k, t.len() as int) == scrub_from(s, i, we),
    ensures
        scrub_from(t, k, we) == scrub_from(s, i, we),
    decreases s.len() - i,
{
    let u = scrub_from(s, i, we);
    assert(t.len() == k + u.len());
    assert forall|x: int| 0 <= x < u.len() implies #[trigger] t[k + x] == u[x] by {
        assert(t.subrange(k, t.len() as int)[x] == t[k + x]);
    }
    if i >= s.len() {
    } else if we && longest_marker(s, i) is Some {
        let m = longest_marker(s, i)->0;
        lemma_longest_marker_found(s, i, MARKER_COUNT as int);
        lemma_marker_nonempty(m);
        let mk = spec_marker(m);
        let j = i + mk.len();
        lemma_secret_run_bound(s, j);
        let v = secret_run(s, j);
        let rest = scrub_from(s, j + v, true);
        let r = if v > 0 {
            redacted()
        } else {
            Seq::<char>::empty()
        };
        assert(u == s.subrange(i, j) + r + rest);
        lemma_marker_step(s, i, we, t, k);
        let jt = k + mk.len();
        assert(scrub_from(t, k, we) == t.subrange(k, jt) + Seq::<char>::empty() + scrub_from(t, jt, true));
        if v > 0 {
            assert forall|x: int| 0 <= x < 10 implies #[trigger] t.subrange(jt, jt + 10)[x] == redacted()[x] by {
                assert(t[k + (mk.len() + x)] == u[mk.len() + x]);
            }
            assert(t.subrange(jt, jt + 10) =~= redacted());
            lemma_redacted_passes(t, jt, true);
            assert forall|x: int| 0 <= x < rest.len() implies #[trigger] t.subrange(jt + 10, t.len() as int)[x]
                == rest[x] by {
                assert(t[k + (mk.len() + 10 + x)] == u[mk.len() + 10 + x]);
            }
            assert(t.subrange(jt + 10, t.len() as int) =~= rest);
            lemma_rescrub(s, j + v, true, t, jt + 10);
        } else {
            assert forall|x: int| 0 <= x < rest.len() implies #[trigger] t.subrange(jt, t.len() as int)[x]
                == rest[x] by {
                assert(t[k + (mk.len() + x)] == u[mk.len() + x]);
            }
            assert(t.subrange(jt, t.len() as int) =~= rest);
            lemma_rescrub(s, j, true, t, jt);
        }
        assert(scrub_from(t, k, we) =~= u);
    } else if we && (bare_token_at(s, i) || prefixed_key_at(s, i)) {
        let n: int = if bare_token_at(s, i) {
            alnum_run(s, i) as int
        } else {
            secret_run(s, i) as int
        };
        lemma_alnum_run_bound(s, i);
        lemma_secret_run_bound(s, i);
        let rest = scrub_from(s, i + n, true);
        assert(u == redacted() + rest);
        assert forall|x: int| 0 <= x < 10 implies #[trigger] t.subrange(k, k + 10)[x] == redacted()[x] by {
            assert(t[k + x] == u[x]);
        }
        assert(t.subrange(k, k + 10) =~= redacted());
        lemma_redacted_passes(t, k, we);
        assert forall|x: int| 0 <= x < rest.len() implies #[trigger] t.subrange(k + 10, t.len() as int)[x]
            == rest[x] by {
            assert(t[k + (10 + x)] == u[10 + x]);
        }
        assert(t.subrange(k + 10, t.len() as int) =~= rest);
        lemma_rescrub(s, i + n, true, t, k + 10);
        assert(scrub_from(t, k, we) =~= u);
    } else {
        lemma_plain_step(s, i, we, t, k);
        let rest = scrub_from(s, i + 1, ends_word(s[i]));
        assert(u == seq![s[i]] + rest);
        assert forall|x: int| 0 <= x < rest.len() implies #[trigger] t.subrange(k + 1, t.len() as int)[x]
            == rest[x] by {
            assert(t[k + (1 + x)] == u[1 + x]);
        }
        assert(t.subrange(k + 1, t.len() as int) =~= rest);
        lemma_rescrub(s, i + 1, ends_word(s[i]), t, k + 1);
        assert(scrub_from(t, k, we) =~= u);
    }
}

/// Scrubbing is idempotent: a scrubbed line passes the scrubber unchanged, so
/// a record scrubbed twice (by two layers, or read back from the file and
/// logged again) is the record scrubbed once.
pub proof fn law_scrub_is_idempotent(s: Seq<char>)
    ensures
        scrubbed(scrubbed(s)) == scrubbed(s),
{
    let t = scrubbed(s);
    assert(t.subrange(0, t.len() as int) =~= t);
    lemma_rescrub(s, 0, true, t, 0);
}

} // verus!
