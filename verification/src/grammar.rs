use vstd::prelude::*;
use vstd::string::*;

verus! {

/// An ASCII decimal digit.
pub open spec fn is_ascii_digit(c: char) -> bool {
    '0' <= c && c <= '9'
}

/// The length of the longest digit prefix of `s`.
pub open spec fn digits_prefix_len(s: Seq<char>) -> nat
    decreases s.len(),
{
    if s.len() == 0 || !is_ascii_digit(s[0]) {
        0
    } else {
        1 + digits_prefix_len(s.skip(1))
    }
}

/// Every character of `s` is a digit.
pub open spec fn all_digits(s: Seq<char>) -> bool {
    forall|i: int| 0 <= i < s.len() ==> is_ascii_digit(#[trigger] s[i])
}

/// The body of a pre-release suffix: `rc` or `pre`, each followed by
/// at least one digit.
pub open spec fn valid_suffix_body(s: Seq<char>) -> bool {
    ||| (s.len() >= 3 && s[0] == 'r' && s[1] == 'c' && all_digits(s.skip(2)))
    ||| (s.len() >= 4 && s[0] == 'p' && s[1] == 'r' && s[2] == 'e' && all_digits(s.skip(3)))
}

/// What may follow the leading numeric segment: up to `dots_left` more
/// `.`-separated numeric segments, then at most one `-rc`/`-pre`
/// suffix, then nothing.
pub open spec fn valid_tail(s: Seq<char>, dots_left: nat) -> bool
    decreases s.len(),
    via valid_tail_decreases
{
    if s.len() == 0 {
        true
    } else if s[0] == '.' && dots_left > 0 {
        let d = digits_prefix_len(s.skip(1));
        if d == 0 {
            false
        } else {
            valid_tail(s.skip(1 + d as int), (dots_left - 1) as nat)
        }
    } else if s[0] == '-' {
        valid_suffix_body(s.skip(1))
    } else {
        false
    }
}

#[via_fn]
proof fn valid_tail_decreases(s: Seq<char>, dots_left: nat) {
    if s.len() != 0 && s[0] == '.' && dots_left > 0 {
        lemma_digits_prefix_len_le(s.skip(1));
    }
}

/// The strict version grammar: a numeric major segment, at most two
/// further `.`-separated numeric segments, and an optional `-rc` or
/// `-pre` suffix carrying at least one digit.
pub open spec fn valid_version(s: Seq<char>) -> bool {
    digits_prefix_len(s) >= 1 && valid_tail(s.skip(digits_prefix_len(s) as int), 2)
}

/// The digit prefix never outruns the string.
proof fn lemma_digits_prefix_len_le(s: Seq<char>)
    ensures
        digits_prefix_len(s) <= s.len(),
    decreases s.len(),
{
    if s.len() != 0 && is_ascii_digit(s[0]) {
        lemma_digits_prefix_len_le(s.skip(1));
    }
}

/// A position `i` preceded only by digits and not itself a digit (or
/// the end) pins the digit prefix length to `i`.
proof fn lemma_digits_prefix_len_at(s: Seq<char>, i: int)
    requires
        0 <= i <= s.len(),
        forall|j: int| 0 <= j < i ==> is_ascii_digit(#[trigger] s[j]),
        i == s.len() || !is_ascii_digit(s[i]),
    ensures
        digits_prefix_len(s) == i,
    decreases i,
{
    if i == 0 {
    } else {
        lemma_digits_prefix_len_at(s.skip(1), i - 1);
    }
}

/// The longest digit run of `s`, scanned from the front.
fn digit_run_len(s: &str) -> (d: usize)
    ensures
        d == digits_prefix_len(s@),
{
    let n = s.unicode_len();
    let mut i: usize = 0;
    while i < n
        invariant
            0 <= i <= n,
            n == s@.len(),
            forall|j: int| 0 <= j < i ==> is_ascii_digit(#[trigger] s@[j]),
        decreases n - i,
    {
        let c = s.get_char(i);
        if !('0' <= c && c <= '9') {
            proof {
                lemma_digits_prefix_len_at(s@, i as int);
            }
            return i;
        }
        i += 1;
    }
    proof {
        lemma_digits_prefix_len_at(s@, i as int);
    }
    i
}

/// Whether every character of `s` from position `k` on is a digit.
fn all_digits_from(s: &str, k: usize) -> (r: bool)
    requires
        k <= s@.len(),
    ensures
        r == all_digits(s@.skip(k as int)),
{
    let n = s.unicode_len();
    let mut i: usize = k;
    while i < n
        invariant
            k <= i <= n,
            n == s@.len(),
            forall|j: int| k <= j < i ==> is_ascii_digit(#[trigger] s@[j]),
        decreases n - i,
    {
        let c = s.get_char(i);
        if !('0' <= c && c <= '9') {
            proof {
                assert(!is_ascii_digit(s@.skip(k as int)[i - k]));
            }
            return false;
        }
        i += 1;
    }
    proof {
        assert forall|j: int| 0 <= j < s@.skip(k as int).len() implies is_ascii_digit(
            #[trigger] s@.skip(k as int)[j],
        ) by {
            assert(s@.skip(k as int)[j] == s@[j + k]);
        }
    }
    true
}

/// Whether `s` is the body of a pre-release suffix.
fn check_suffix_body(s: &str) -> (r: bool)
    ensures
        r == valid_suffix_body(s@),
{
    let n = s.unicode_len();
    if n >= 3 && s.get_char(0) == 'r' && s.get_char(1) == 'c' {
        all_digits_from(s, 2)
    } else if n >= 4 && s.get_char(0) == 'p' && s.get_char(1) == 'r' && s.get_char(2) == 'e' {
        all_digits_from(s, 3)
    } else {
        false
    }
}

/// Whether `s` is a valid tail after a numeric segment, with
/// `dots_left` further segments allowed.
fn check_tail(s: &str, dots_left: u32) -> (r: bool)
    ensures
        r == valid_tail(s@, dots_left as nat),
    decreases s@.len(),
{
    let n = s.unicode_len();
    if n == 0 {
        true
    } else {
        let c0 = s.get_char(0);
        if c0 == '.' && dots_left > 0 {
            let rest = s.substring_char(1, n);
            proof {
                assert(rest@ =~= s@.skip(1));
            }
            let d = digit_run_len(rest);
            if d == 0 {
                false
            } else {
                proof {
                    lemma_digits_prefix_len_le(rest@);
                }
                let rest2 = s.substring_char(1 + d, n);
                proof {
                    assert(rest2@ =~= s@.skip(1 + d as int));
                }
                check_tail(rest2, dots_left - 1)
            }
        } else if c0 == '-' {
            let rest = s.substring_char(1, n);
            proof {
                assert(rest@ =~= s@.skip(1));
            }
            check_suffix_body(rest)
        } else {
            false
        }
    }
}

/// Whether a declared platform version satisfies the strict version
/// grammar; only such versions are handed to resolution.
pub fn is_valid_version(s: &str) -> (r: bool)
    ensures
        r == valid_version(s@),
{
    let n = s.unicode_len();
    let d = digit_run_len(s);
    if d == 0 {
        false
    } else {
        proof {
            lemma_digits_prefix_len_le(s@);
        }
        let rest = s.substring_char(d, n);
        proof {
            assert(rest@ =~= s@.skip(d as int));
        }
        check_tail(rest, 2)
    }
}

} // verus!
