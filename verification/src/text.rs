//! Character-level helpers on strings: ASCII case folding, Unicode
//! lowercasing, and building strings character by character.

use vstd::prelude::*;

verus! {

/// The characters of `s`, in order.
pub fn chars_of(s: &str) -> (v: Vec<char>)
    ensures
        v@ == s@,
{
    let mut v: Vec<char> = Vec::new();
    for c in iter: s.chars()
        invariant
            v@ == iter.seq().take(iter.index() as int),
    {
        v.push(c);
    }
    v
}

/// The code point of `c` with ASCII upper-case letters mapped to lower case.
pub open spec fn ascii_fold(c: char) -> u32 {
    let x = c as u32;
    if 65 <= x && x <= 90 {
        (x + 32) as u32
    } else {
        x
    }
}

/// `a` and `b` are equal when ASCII letters are compared without regard to
/// case (the meaning of `str::eq_ignore_ascii_case`).
pub open spec fn spec_eq_ignore_ascii_case(a: Seq<char>, b: Seq<char>) -> bool {
    &&& a.len() == b.len()
    &&& forall|i: int| 0 <= i < a.len() ==> ascii_fold(#[trigger] a[i]) == ascii_fold(b[i])
}

fn fold_char(c: char) -> (r: u32)
    ensures
        r == ascii_fold(c),
{
    let x = c as u32;
    if 65 <= x && x <= 90 {
        x + 32
    } else {
        x
    }
}

/// ASCII case-insensitive equality of two strings.
pub fn eq_ignore_ascii_case(a: &str, b: &str) -> (r: bool)
    ensures
        r == spec_eq_ignore_ascii_case(a@, b@),
{
    let ac = chars_of(a);
    let bc = chars_of(b);
    if ac.len() != bc.len() {
        return false;
    }
    let mut i: usize = 0;
    while i < ac.len()
        invariant
            ac@ == a@,
            bc@ == b@,
            ac.len() == bc.len(),
            i <= ac.len(),
            forall|j: int| 0 <= j < i ==> ascii_fold(#[trigger] a@[j]) == ascii_fold(b@[j]),
        decreases ac.len() - i,
    {
        if fold_char(ac[i]) != fold_char(bc[i]) {
            return false;
        }
        i = i + 1;
    }
    true
}

/// Exact equality of two strings.
pub fn same_text(a: &str, b: &str) -> (r: bool)
    ensures
        r == (a@ == b@),
{
    let ac = chars_of(a);
    let bc = chars_of(b);
    if ac.len() != bc.len() {
        return false;
    }
    let mut i: usize = 0;
    while i < ac.len()
        invariant
            ac@ == a@,
            bc@ == b@,
            ac.len() == bc.len(),
            i <= ac.len(),
            forall|j: int| 0 <= j < i ==> #[trigger] a@[j] == b@[j],
        decreases ac.len() - i,
    {
        if ac[i] != bc[i] {
            return false;
        }
        i = i + 1;
    }
    assert(a@ =~= b@);
    true
}

/// `s` begins with a dot.
pub open spec fn starts_with_dot(s: Seq<char>) -> bool {
    s.len() > 0 && s[0] == '.'
}

pub fn begins_with_dot(s: &str) -> (r: bool)
    ensures
        r == starts_with_dot(s@),
{
    let mut it = s.chars();
    proof {
        broadcast use vstd::string::group_string_axioms;
    }
    match it.next() {
        Some(c) => c == '.',
        None => false,
    }
}

/// The Unicode lowercase mapping of `str::to_lowercase`, which depends on the
/// string alone.
pub uninterp spec fn unicode_lowercase(s: Seq<char>) -> Seq<char>;

/// Wraps `str::to_lowercase`; its result is `unicode_lowercase` of the input.
#[verifier::external_body]
pub(crate) fn to_lowercase(s: &str) -> (r: String)
    ensures
        r@ == unicode_lowercase(s@),
{
    s.to_lowercase()
}

/// Wraps `String::push`, which appends one character.
#[verifier::external_body]
pub(crate) fn push_char(s: &mut String, c: char)
    ensures
        final(s)@ == old(s)@.push(c),
{
    s.push(c);
}

} // verus!
