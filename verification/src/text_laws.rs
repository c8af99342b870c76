//! What texts, paths and keys mean, character by character.

use crate::path;
use crate::text;
use crate::token_map;
use crate::token_map::Entries;
use vstd::prelude::*;
use vstd::utf8::*;

verus! {

/// White space are the characters with the Unicode property of that name, and no others.
pub proof fn white_space_is_that_of_unicode(c: char)
    ensures
        text::is_white_space(c) <==> {
            let u = c as int;
            ||| u == 9
            ||| u == 10
            ||| u == 11
            ||| u == 12
            ||| u == 13
            ||| u == 32
            ||| u == 133
            ||| u == 160
            ||| u == 5760
            ||| 8192 <= u <= 8202
            ||| u == 8232
            ||| u == 8233
            ||| u == 8239
            ||| u == 8287
            ||| u == 12288
        },
{
}

proof fn lemma_trimmed_start(s: Seq<char>) -> (from: int)
    ensures
        0 <= from <= s.len(),
        text::trimmed_start(s) == s.skip(from),
        forall|i: int| 0 <= i < from ==> text::is_white_space(#[trigger] s[i]),
        from < s.len() ==> !text::is_white_space(s[from]),
    decreases s.len(),
{
    if s.len() > 0 && text::is_white_space(s[0]) {
        let rest = s.drop_first();
        let from = lemma_trimmed_start(rest);
        assert(rest.skip(from) =~= s.skip(from + 1));
        assert forall|i: int| 0 <= i < from + 1 implies text::is_white_space(#[trigger] s[i]) by {
            if i > 0 {
                assert(text::is_white_space(rest[i - 1]));
            }
        }
        from + 1
    } else {
        assert(s.skip(0) =~= s);
        0
    }
}

proof fn lemma_trimmed_end(s: Seq<char>) -> (to: int)
    ensures
        0 <= to <= s.len(),
        text::trimmed_end(s) == s.take(to),
        forall|i: int| to <= i < s.len() ==> text::is_white_space(#[trigger] s[i]),
        to > 0 ==> !text::is_white_space(s[to - 1]),
    decreases s.len(),
{
    if s.len() > 0 && text::is_white_space(s.last()) {
        let rest = s.drop_last();
        let to = lemma_trimmed_end(rest);
        assert(rest.take(to) =~= s.take(to));
        assert forall|i: int| to <= i < s.len() implies text::is_white_space(#[trigger] s[i]) by {
            if i < s.len() - 1 {
                assert(text::is_white_space(rest[i]));
            }
        }
        to
    } else {
        assert(s.take(s.len() as int) =~= s);
        s.len() as int
    }
}

/// Trimming takes white space from both ends and nothing else: what is left is a stretch of the text
/// that neither begins nor ends with white space, and all around it is white space.
pub proof fn trimming_takes_the_white_space_around(s: Seq<char>) -> (r: (int, int))
    ensures
        0 <= r.0 <= r.1 <= s.len(),
        text::trimmed(s) == s.subrange(r.0, r.1),
        forall|i: int| 0 <= i < r.0 ==> text::is_white_space(#[trigger] s[i]),
        forall|i: int| r.1 <= i < s.len() ==> text::is_white_space(#[trigger] s[i]),
        r.0 < r.1 ==> !text::is_white_space(s[r.0]) && !text::is_white_space(s[r.1 - 1]),
{
    let from = lemma_trimmed_start(s);
    let rest = s.skip(from);
    let to = lemma_trimmed_end(rest);
    assert(rest.take(to) =~= s.subrange(from, from + to));
    assert forall|i: int| from + to <= i < s.len() implies text::is_white_space(
        #[trigger] s[i],
    ) by {
        assert(text::is_white_space(rest[i - from]));
    }
    if to > 0 {
        assert(rest[to - 1] == s[from + to - 1]);
        assert(rest[0] == s[from]);
    }
    (from, from + to)
}

/// Something is left of a text after trimming exactly if it has a character that is no white space.
pub proof fn only_blank_texts_are_trimmed_away(s: Seq<char>)
    ensures
        text::trimmed(s).len() > 0 <==> exists|i: int|
            0 <= i < s.len() && !text::is_white_space(#[trigger] s[i]),
{
    let (from, to) = trimming_takes_the_white_space_around(s);
    if from < to {
        assert(!text::is_white_space(s[from]));
    }
}

/// The number that digits stand for.
pub open spec fn number_of_digits(s: Seq<char>) -> int
    decreases s.len(),
{
    if s.len() == 0 {
        0
    } else {
        10 * number_of_digits(s.drop_last()) + (s.last() as int - 48)
    }
}

/// The decimal notation of a number is made of digits that stand for that number, the first of them
/// not zero unless it is the only one.
pub proof fn decimal_notation_stands_for_its_number(n: nat)
    ensures
        number_of_digits(text::decimal(n)) == n,
        text::decimal(n).len() >= 1,
        forall|i: int|
            0 <= i < text::decimal(n).len() ==> 48 <= #[trigger] text::decimal(n)[i] as int <= 57,
        text::decimal(n).len() > 1 ==> text::decimal(n)[0] as int > 48,
        n > 0 ==> text::decimal(n)[0] as int > 48,
    decreases n,
{
    if n < 10 {
        let s = text::decimal(n);
        assert(text::digit(n) as int == 48 + n);
        assert(s.drop_last().len() == 0);
        assert(number_of_digits(s.drop_last()) == 0);
    } else {
        decimal_notation_stands_for_its_number(n / 10);
        assert(text::digit(n % 10) as int == 48 + n % 10);
        assert(text::decimal(n).drop_last() =~= text::decimal(n / 10));
    }
}

/// Letters are compared without regard to case, and only the letters from A to Z are.
pub proof fn only_ascii_letters_lose_their_case(a: char, b: char)
    ensures
        text::ascii_lower(a) == text::ascii_lower(b) <==> {
            ||| a == b
            ||| 65 <= a as int <= 90 && b as int == a as int + 32
            ||| 65 <= b as int <= 90 && a as int == b as int + 32
        },
{
    if 'A' <= a && a <= 'Z' {
        assert(text::ascii_lower(a) as int == a as int + 32);
    }
    if 'A' <= b && b <= 'Z' {
        assert(text::ascii_lower(b) as int == b as int + 32);
    }
}

/// Texts are the same but for their case exactly if they are as long as each other and each character
/// of one is the same as that of the other, or its letter from A to Z in the other case.
pub proof fn texts_are_the_same_letter_by_letter(a: &str, b: &str, r: bool)
    requires
        call_ensures(text::same_ignoring_ascii_case, (a, b), r),
    ensures
        r <==> a@.len() == b@.len() && forall|i: int|
            0 <= i < a@.len() ==> {
                ||| #[trigger] a@[i] == b@[i]
                ||| 65 <= a@[i] as int <= 90 && b@[i] as int == a@[i] as int + 32
                ||| 65 <= b@[i] as int <= 90 && a@[i] as int == b@[i] as int + 32
            },
{
    if a@.len() == b@.len() {
        assert forall|i: int| 0 <= i < a@.len() implies (text::ascii_lower(#[trigger] a@[i])
            == text::ascii_lower(b@[i]) <==> {
            ||| a@[i] == b@[i]
            ||| 65 <= a@[i] as int <= 90 && b@[i] as int == a@[i] as int + 32
            ||| 65 <= b@[i] as int <= 90 && a@[i] as int == b@[i] as int + 32
        }) by {
            only_ascii_letters_lose_their_case(a@[i], b@[i]);
        }
    }
}

proof fn lemma_bytes_before(a: Seq<u8>, b: Seq<u8>)
    ensures
        text::bytes_before(a, b) <==> exists|p: int| #[trigger] parts_at(a, b, p),
    decreases a.len(),
{
    if a.len() > 0 && b.len() > 0 && a[0] == b[0] {
        let x = a.drop_first();
        let y = b.drop_first();
        lemma_bytes_before(x, y);
        if text::bytes_before(x, y) {
            let p = choose|p: int| #[trigger] parts_at(x, y, p);
            assert(a.take(p + 1) =~= seq![a[0]] + x.take(p));
            assert(b.take(p + 1) =~= seq![b[0]] + y.take(p));
            assert(parts_at(a, b, p + 1));
        }
        if exists|p: int| #[trigger] parts_at(a, b, p) {
            let p = choose|p: int| #[trigger] parts_at(a, b, p);
            assert(p > 0);
            assert(a.take(p).skip(1) =~= x.take(p - 1));
            assert(b.take(p).skip(1) =~= y.take(p - 1));
            assert(parts_at(x, y, p - 1));
        }
    } else if b.len() > 0 && (a.len() == 0 || a[0] < b[0]) {
        assert(a.take(0) =~= b.take(0));
        assert(parts_at(a, b, 0));
    } else if exists|p: int| #[trigger] parts_at(a, b, p) {
        let p = choose|p: int| #[trigger] parts_at(a, b, p);
        if p > 0 {
            assert(a.take(p)[0] == a[0]);
            assert(b.take(p)[0] == b[0]);
        }
    }
}

/// Two byte sequences are alike up to a position, where the first one ends or has the lower byte.
pub open spec fn parts_at(a: Seq<u8>, b: Seq<u8>, p: int) -> bool {
    &&& 0 <= p <= a.len()
    &&& p < b.len()
    &&& a.take(p) == b.take(p)
    &&& p == a.len() || a[p] < b[p]
}

/// Keys are in the order of their bytes: at the first byte in which they differ the earlier key has
/// the lower one, or ends there.
pub proof fn keys_are_in_the_order_of_their_bytes(a: Seq<char>, b: Seq<char>)
    ensures
        text::key_before(a, b) <==> exists|p: int| #[trigger]
            parts_at(encode_utf8(a), encode_utf8(b), p),
{
    lemma_bytes_before(encode_utf8(a), encode_utf8(b));
}

/// Taking the slashes from behind a path leaves the path up to its last character that is no slash.
pub proof fn only_trailing_slashes_are_taken(s: Seq<char>)
    ensures
        path::unslashed(s).len() <= s.len(),
        path::unslashed(s) == s.take(path::unslashed(s).len() as int),
        forall|i: int| path::unslashed(s).len() <= i < s.len() ==> #[trigger] s[i] == '/',
        path::unslashed(s).len() > 0 ==> path::unslashed(s).last() != '/',
    decreases s.len(),
{
    if s.len() > 0 && s.last() == '/' {
        let rest = s.drop_last();
        only_trailing_slashes_are_taken(rest);
        let n = path::unslashed(s).len() as int;
        assert(rest.take(n) =~= s.take(n));
        assert forall|i: int| n <= i < s.len() implies #[trigger] s[i] == '/' by {
            if i < s.len() - 1 {
                assert(rest[i] == '/');
            }
        }
    } else {
        assert(s.take(s.len() as int) =~= s);
    }
}

/// A path that consists of a part without a slash at its end and any number of slashes is that part.
pub proof fn slashes_behind_a_path_do_not_matter(s: Seq<char>, slashes: Seq<char>)
    requires
        s.len() == 0 || s.last() != '/',
        forall|i: int| 0 <= i < slashes.len() ==> #[trigger] slashes[i] == '/',
    ensures
        path::unslashed(s + slashes) == s,
    decreases slashes.len(),
{
    let all = s + slashes;
    if slashes.len() > 0 {
        assert(all.last() == slashes[slashes.len() - 1]);
        assert(all.drop_last() =~= s + slashes.drop_last());
        slashes_behind_a_path_do_not_matter(s, slashes.drop_last());
    } else {
        assert(all =~= s);
    }
}

/// What follows a prefix, or precedes a suffix, is found exactly where the text is made of the two.
pub proof fn a_text_is_made_of_its_parts(s: Seq<char>, part: Seq<char>, rest: Seq<char>)
    ensures
        path::behind(s, part) == Some(rest) <==> s == part + rest,
        path::ahead(s, part) == Some(rest) <==> s == rest + part,
{
    if s == part + rest {
        assert(part.is_prefix_of(s));
        assert(s.skip(part.len() as int) =~= rest);
    }
    if path::behind(s, part) == Some(rest) {
        assert(s =~= part + rest);
    }
    if s == rest + part {
        assert(s.subrange(s.len() - part.len(), s.len() as int) =~= part);
        assert(part.is_suffix_of(s));
        assert(s.take(s.len() - part.len()) =~= rest);
    }
    if path::ahead(s, part) == Some(rest) {
        assert(s.subrange(s.len() - part.len(), s.len() as int) =~= part);
        assert(s =~= rest + part);
    }
}

/// What a key reads is an entry under that key, and a key reads nothing only where there is none.
pub proof fn a_key_reads_its_entry<V>(s: Entries<V>, key: Seq<char>)
    ensures
        match token_map::lookup(s, key) {
            Some(value) => exists|i: int|
                0 <= i < s.len() && (#[trigger] s[i]) == (key, value),
            None => forall|i: int| 0 <= i < s.len() ==> (#[trigger] s[i]).0 != key,
        },
    decreases s.len(),
{
    if s.len() > 0 {
        let rest = s.drop_first();
        if s[0].0 == key {
            assert(s[0] == (key, s[0].1));
        } else {
            a_key_reads_its_entry(rest, key);
            match token_map::lookup(s, key) {
                Some(value) => {
                    let i = choose|i: int|
                        0 <= i < rest.len() && (#[trigger] rest[i]) == (key, value);
                    assert(s[i + 1] == (key, value));
                },
                None => {
                    assert forall|i: int| 0 <= i < s.len() implies (#[trigger] s[i]).0 != key by {
                        if i > 0 {
                            assert(rest[i - 1].0 != key);
                        }
                    }
                },
            }
        }
    }
}

} // verus!
