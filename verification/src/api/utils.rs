//! Email format validation.
//!
//! An email is accepted when a prefix of it matches: a local part of
//! lower-case letters, digits, `_` and `+`, in which `.` may stand only
//! between two such characters; an `@`; domain labels of lower-case letters
//! and digits separated by single `-` or `.` characters; and a final `.`
//! followed by two to six letters.  The pattern is anchored at the start
//! only, so trailing characters after a match are permitted.

use vstd::prelude::*;

verus! {

/// A character the local part may start and end with.
pub open spec fn is_local_char(c: char) -> bool {
    ('a' <= c && c <= 'z') || ('0' <= c && c <= '9') || c == '_' || c == '+'
}

/// A character the local part may hold between its first and last one.
pub open spec fn is_local_inner_char(c: char) -> bool {
    is_local_char(c) || c == '.'
}

/// A lower-case letter or digit.
pub open spec fn is_alnum_char(c: char) -> bool {
    ('a' <= c && c <= 'z') || ('0' <= c && c <= '9')
}

/// A separator between domain labels.
pub open spec fn is_domain_sep(c: char) -> bool {
    c == '-' || c == '.'
}

/// A character the domain labels may hold.
pub open spec fn is_domain_char(c: char) -> bool {
    is_alnum_char(c) || is_domain_sep(c)
}

/// A lower-case letter.
pub open spec fn is_alpha_char(c: char) -> bool {
    'a' <= c && c <= 'z'
}

/// The positions `[0, at)` of `s` form a local part: nonempty, delimited by
/// local characters, with only local characters and `.` between them.
pub open spec fn valid_local_span(s: Seq<char>, at: int) -> bool {
    &&& 1 <= at <= s.len()
    &&& is_local_char(s[0])
    &&& is_local_char(s[at - 1])
    &&& forall|i: int| 0 < i < at - 1 ==> is_local_inner_char(#[trigger] s[i])
}

/// The positions `[from, to)` of `s` form domain labels: nonempty, starting
/// and ending with a letter or digit, over letters, digits, `-` and `.`,
/// with no two adjacent separators.
pub open spec fn valid_domain_span(s: Seq<char>, from: int, to: int) -> bool {
    &&& 0 <= from < to <= s.len()
    &&& is_alnum_char(s[from])
    &&& is_alnum_char(s[to - 1])
    &&& forall|i: int| from <= i < to ==> is_domain_char(#[trigger] s[i])
    &&& forall|i: int|
        from <= i < to - 1 ==> !(is_domain_sep(#[trigger] s[i]) && is_domain_sep(s[i + 1]))
}

/// A decomposition of a prefix of `s` as the email pattern: the local part
/// ends at the `@` in position `at`, the domain labels end at the `.` in
/// position `dot`, and the match ends at `end` after two to six letters.
pub open spec fn email_decomposition_at(s: Seq<char>, at: int, dot: int, end: int) -> bool {
    &&& 0 < at
    &&& at + 1 < dot
    &&& dot < end <= s.len()
    &&& 2 <= end - dot - 1 <= 6
    &&& s[at] == '@'
    &&& s[dot] == '.'
    &&& valid_local_span(s, at)
    &&& valid_domain_span(s, at + 1, dot)
    &&& forall|i: int| dot < i < end ==> is_alpha_char(#[trigger] s[i])
}

/// Some prefix of `s` matches the email pattern.
pub open spec fn valid_email(s: Seq<char>) -> bool {
    exists|at: int, dot: int, end: int| email_decomposition_at(s, at, dot, end)
}

/// A position of `.` that can serve as the final dot of a match whose `@`
/// stands at `at`: domain labels before it, and at least two letters after.
pub open spec fn admissible_dot(s: Seq<char>, at: int, dot: int) -> bool {
    &&& at + 1 < dot
    &&& dot + 2 < s.len()
    &&& s[dot] == '.'
    &&& valid_domain_span(s, at + 1, dot)
    &&& is_alpha_char(s[dot + 1])
    &&& is_alpha_char(s[dot + 2])
}

/// In any decomposition the `@` is the first `@` of the string: the local
/// part admits no `@` before it.
proof fn lemma_at_is_first(s: Seq<char>, first: int, at: int, dot: int, end: int)
    requires
        email_decomposition_at(s, at, dot, end),
        0 <= first <= s.len(),
        first < s.len() ==> s[first] == '@',
        forall|j: int| 0 <= j < first ==> s[j] != '@',
    ensures
        at == first,
{
    if at < first {
        assert(s[at] == '@');
    } else if at > first {
        assert(s[first] == '@');
        if first == 0 {
            assert(is_local_char(s[0]));
        } else if first == at - 1 {
            assert(is_local_char(s[at - 1]));
        } else {
            assert(is_local_inner_char(s[first]));
        }
    }
}

/// The characters of a string, as a vector.
fn collect_chars(s: &str) -> (v: Vec<char>)
    ensures
        v@ == s@,
{
    let n = s.unicode_len();
    let mut v: Vec<char> = Vec::new();
    let mut i: usize = 0;
    while i < n
        invariant
            n == s@.len(),
            i <= n,
            v@ == s@.subrange(0, i as int),
        decreases n - i,
    {
        v.push(s.get_char(i));
        proof {
            assert(v@ =~= s@.subrange(0, i + 1));
        }
        i = i + 1;
    }
    proof {
        assert(s@.subrange(0, n as int) =~= s@);
    }
    v
}

/// The position of the first `@`, if any.
fn find_first_at(v: &Vec<char>) -> (r: Option<usize>)
    ensures
        match r {
            Some(i) => i < v@.len() && v@[i as int] == '@' && forall|j: int|
                0 <= j < i ==> v@[j] != '@',
            None => forall|j: int| 0 <= j < v@.len() ==> v@[j] != '@',
        },
{
    let mut i: usize = 0;
    while i < v.len()
        invariant
            i <= v@.len(),
            forall|j: int| 0 <= j < i ==> v@[j] != '@',
        decreases v@.len() - i,
    {
        if v[i] == '@' {
            return Some(i);
        }
        i = i + 1;
    }
    None
}

/// Whether `c` may start or end a local part.
fn is_local(c: char) -> (r: bool)
    ensures
        r == is_local_char(c),
{
    ('a' <= c && c <= 'z') || ('0' <= c && c <= '9') || c == '_' || c == '+'
}

/// Whether `c` may stand inside a local part.
fn is_local_inner(c: char) -> (r: bool)
    ensures
        r == is_local_inner_char(c),
{
    is_local(c) || c == '.'
}

/// Whether `c` is a lower-case letter or digit.
fn is_alnum(c: char) -> (r: bool)
    ensures
        r == is_alnum_char(c),
{
    ('a' <= c && c <= 'z') || ('0' <= c && c <= '9')
}

/// Whether `c` separates domain labels.
fn is_sep(c: char) -> (r: bool)
    ensures
        r == is_domain_sep(c),
{
    c == '-' || c == '.'
}

/// Whether `c` may stand in the domain labels.
fn is_domain(c: char) -> (r: bool)
    ensures
        r == is_domain_char(c),
{
    is_alnum(c) || is_sep(c)
}

/// Whether `c` is a lower-case letter.
fn is_alpha(c: char) -> (r: bool)
    ensures
        r == is_alpha_char(c),
{
    'a' <= c && c <= 'z'
}

/// Whether the positions `[0, at)` form a local part.
fn check_local_span(v: &Vec<char>, at: usize) -> (r: bool)
    requires
        at <= v@.len(),
    ensures
        r == valid_local_span(v@, at as int),
{
    if at == 0 {
        return false;
    }
    if !is_local(v[0]) {
        return false;
    }
    if !is_local(v[at - 1]) {
        return false;
    }
    let mut i: usize = 1;
    while i < at - 1
        invariant
            1 <= at <= v@.len(),
            1 <= i,
            forall|j: int| 0 < j < i ==> is_local_inner_char(#[trigger] v@[j]),
        decreases at - i,
    {
        if !is_local_inner(v[i]) {
            return false;
        }
        i = i + 1;
    }
    true
}

/// Whether the positions `[from, to)` form domain labels.
fn check_domain_span(v: &Vec<char>, from: usize, to: usize) -> (r: bool)
    requires
        to <= v@.len(),
    ensures
        r == valid_domain_span(v@, from as int, to as int),
{
    if from >= to {
        return false;
    }
    if !is_alnum(v[from]) {
        return false;
    }
    if !is_alnum(v[to - 1]) {
        return false;
    }
    let mut i: usize = from;
    while i < to
        invariant
            from <= i <= to <= v@.len(),
            forall|j: int| from <= j < i ==> is_domain_char(#[trigger] v@[j]),
        decreases to - i,
    {
        if !is_domain(v[i]) {
            return false;
        }
        i = i + 1;
    }
    let mut k: usize = from;
    while k < to - 1
        invariant
            from < to <= v@.len(),
            from <= k <= to,
            forall|j: int|
                from <= j < k ==> !(is_domain_sep(#[trigger] v@[j]) && is_domain_sep(v@[j + 1])),
        decreases to - k,
    {
        if is_sep(v[k]) && is_sep(v[k + 1]) {
            return false;
        }
        k = k + 1;
    }
    true
}

/// Whether the email has a valid format, per [`valid_email`].
pub fn validate_email(email: &str) -> (r: bool)
    ensures
        r == valid_email(email@),
{
    let chars = collect_chars(email);
    let ghost s = email@;
    let n = chars.len();
    let at = match find_first_at(&chars) {
        None => {
            proof {
                assert forall|a2: int, d2: int, e2: int|
                    !email_decomposition_at(s, a2, d2, e2) by {
                    if email_decomposition_at(s, a2, d2, e2) {
                        assert(s[a2] == '@');
                    }
                }
            }
            return false;
        },
        Some(a) => a,
    };
    if at == 0 {
        proof {
            assert forall|a2: int, d2: int, e2: int| !email_decomposition_at(s, a2, d2, e2) by {
                if email_decomposition_at(s, a2, d2, e2) {
                    lemma_at_is_first(s, 0, a2, d2, e2);
                }
            }
        }
        return false;
    }
    if !check_local_span(&chars, at) {
        proof {
            assert forall|a2: int, d2: int, e2: int| !email_decomposition_at(s, a2, d2, e2) by {
                if email_decomposition_at(s, a2, d2, e2) {
                    lemma_at_is_first(s, at as int, a2, d2, e2);
                }
            }
        }
        return false;
    }
    if n - at < 5 {
        proof {
            assert forall|a2: int, d2: int, e2: int| !email_decomposition_at(s, a2, d2, e2) by {
                if email_decomposition_at(s, a2, d2, e2) {
                    lemma_at_is_first(s, at as int, a2, d2, e2);
                }
            }
        }
        return false;
    }
    let mut dot = at + 2;
    while dot < n
        invariant
            s == email@,
            chars@ == s,
            n == s.len(),
            at + 2 <= dot,
            at < n,
            s[at as int] == '@',
            valid_local_span(s, at as int),
            forall|d: int| at + 2 <= d < dot ==> !admissible_dot(s, at as int, d),
        decreases n - dot,
    {
        if n - dot > 2 && chars[dot] == '.' && check_domain_span(&chars, at + 1, dot) && is_alpha(
            chars[dot + 1],
        ) && is_alpha(chars[dot + 2]) {
            proof {
                assert(email_decomposition_at(s, at as int, dot as int, dot + 3));
            }
            return true;
        }
        dot = dot + 1;
    }
    proof {
        assert forall|a2: int, d2: int, e2: int| !email_decomposition_at(s, a2, d2, e2) by {
            if email_decomposition_at(s, a2, d2, e2) {
                lemma_at_is_first(s, at as int, a2, d2, e2);
                assert(is_alpha_char(s[d2 + 1]));
                assert(is_alpha_char(s[d2 + 2]));
                assert(admissible_dot(s, at as int, d2));
            }
        }
    }
    false
}

} // verus!
