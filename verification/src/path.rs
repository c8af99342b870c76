//! Taking apart the path of a request.

use crate::text;
use vstd::prelude::*;
use vstd::string::*;

verus! {

/// `s` without the slashes behind it.
pub open spec fn unslashed(s: Seq<char>) -> Seq<char>
    decreases s.len(),
{
    if s.len() > 0 && s.last() == '/' {
        unslashed(s.drop_last())
    } else {
        s
    }
}

/// What follows `prefix` in `s`, where `s` begins with it.
pub open spec fn behind(s: Seq<char>, prefix: Seq<char>) -> Option<Seq<char>> {
    if prefix.is_prefix_of(s) {
        Some(s.skip(prefix.len() as int))
    } else {
        None
    }
}

/// What precedes `suffix` in `s`, where `s` ends with it.
pub open spec fn ahead(s: Seq<char>, suffix: Seq<char>) -> Option<Seq<char>> {
    if suffix.is_suffix_of(s) {
        Some(s.take(s.len() - suffix.len()))
    } else {
        None
    }
}

/// The text without the slashes behind it.
pub fn without_trailing_slashes(s: &str) -> (r: &str)
    ensures
        r@ == unslashed(s@),
{
    let mut to: usize = s.unicode_len();
    assert(s@.take(to as int) =~= s@);
    while to > 0 && s.get_char(to - 1) == '/'
        invariant
            to <= s@.len(),
            unslashed(s@) == unslashed(s@.take(to as int)),
        decreases to,
    {
        assert(s@.take(to as int).drop_last() =~= s@.take(to - 1));
        to -= 1;
    }
    assert(s@.subrange(0, to as int) =~= s@.take(to as int));
    s.substring_char(0, to)
}

/// What follows `prefix` in a text that begins with it.
pub fn strip_prefix<'a>(s: &'a str, prefix: &str) -> (r: Option<&'a str>)
    ensures
        text::opt_view(r) == behind(s@, prefix@),
{
    let n: usize = prefix.unicode_len();
    let len: usize = s.unicode_len();
    if len < n {
        return None;
    }
    let head = s.substring_char(0, n);
    if text::same(head, prefix) {
        assert(prefix@.is_prefix_of(s@));
        assert(s@.subrange(n as int, len as int) =~= s@.skip(n as int));
        Some(s.substring_char(n, len))
    } else {
        assert(head@ =~= s@.subrange(0, n as int));
        None
    }
}

/// What precedes `suffix` in a text that ends with it.
pub fn strip_suffix<'a>(s: &'a str, suffix: &str) -> (r: Option<&'a str>)
    ensures
        text::opt_view(r) == ahead(s@, suffix@),
{
    let n: usize = suffix.unicode_len();
    let len: usize = s.unicode_len();
    if len < n {
        return None;
    }
    let tail = s.substring_char(len - n, len);
    if text::same(tail, suffix) {
        assert(suffix@.is_suffix_of(s@));
        assert(s@.subrange(0, len - n) =~= s@.take(len - n));
        Some(s.substring_char(0, len - n))
    } else {
        assert(tail@ =~= s@.subrange(len - n, len as int));
        None
    }
}

/// Whether the text is one segment of a path: not empty, and without a slash.
pub open spec fn is_segment(s: Seq<char>) -> bool {
    s.len() > 0 && !s.contains('/')
}

/// The text, where it is one segment of a path.
pub open spec fn segment(s: Seq<char>) -> Option<Seq<char>> {
    if is_segment(s) {
        Some(s)
    } else {
        None
    }
}

/// The text, where it is one segment of a path.
pub fn as_segment(s: &str) -> (r: Option<String>)
    ensures
        text::opt_string(r) == segment(s@),
{
    let n: usize = s.unicode_len();
    if n == 0 {
        return None;
    }
    let mut at: usize = 0;
    while at < n
        invariant
            at <= n == s@.len(),
            forall|i: int| 0 <= i < at ==> s@[i] != '/',
        decreases n - at,
    {
        if s.get_char(at) == '/' {
            assert(s@[at as int] == '/');
            return None;
        }
        at += 1;
    }
    Some(s.to_string())
}

} // verus!
