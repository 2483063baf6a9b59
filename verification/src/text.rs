//! Character sequences: searching, cutting and reading numbers.
//!
//! Strings are modelled by their view, a `Seq<char>`. The executable
//! functions work on `Vec<char>`, where a character is reached by its index.

use vstd::prelude::*;

verus! {

/// `needle` stands in `hay` at position `at`.
pub open spec fn occurs_at(hay: Seq<char>, needle: Seq<char>, at: int) -> bool {
    0 <= at && at + needle.len() <= hay.len() && hay.subrange(at, at + needle.len()) == needle
}

/// `needle` stands somewhere in `hay`.
pub open spec fn has_infix(hay: Seq<char>, needle: Seq<char>) -> bool {
    exists|at: int| occurs_at(hay, needle, at)
}

/// What each of the strings holds.
pub open spec fn texts(strings: Seq<String>) -> Seq<Seq<char>> {
    strings.map_values(|s: String| s@)
}

/// `s` without the occurrences of `pat`, found from the left and not
/// overlapping. An empty `pat` occurs nowhere.
pub open spec fn without(s: Seq<char>, pat: Seq<char>) -> Seq<char>
    decreases s.len(),
{
    if s.len() == 0 {
        s
    } else if pat.len() > 0 && occurs_at(s, pat, 0) {
        without(s.skip(pat.len() as int), pat)
    } else {
        seq![s[0]] + without(s.skip(1), pat)
    }
}

/// The last place at which `c` stands in `s`.
pub open spec fn last_index(s: Seq<char>, c: char) -> Option<int>
    decreases s.len(),
{
    if s.len() == 0 {
        None
    } else if s.last() == c {
        Some(s.len() - 1)
    } else {
        last_index(s.drop_last(), c)
    }
}

/// The value of a decimal digit.
pub open spec fn digit_value(c: char) -> Option<nat> {
    if '0' <= c <= '9' {
        Some((c as nat - '0' as nat) as nat)
    } else {
        None
    }
}

/// The number that a non-empty run of decimal digits writes.
pub open spec fn decimal(s: Seq<char>) -> Option<nat>
    decreases s.len(),
{
    if s.len() == 0 {
        None
    } else {
        match digit_value(s.last()) {
            None => None,
            Some(d) => if s.len() == 1 {
                Some(d)
            } else {
                match decimal(s.drop_last()) {
                    None => None,
                    Some(high) => Some(10 * high + d),
                }
            },
        }
    }
}

/// The number that `s` writes as an unsigned 32-bit integer: decimal digits,
/// after one `+` at most, of a value that fits.
pub open spec fn unsigned_32(s: Seq<char>) -> Option<u32> {
    let digits = if s.len() > 0 && s[0] == '+' {
        s.skip(1)
    } else {
        s
    };
    match decimal(digits) {
        Some(v) => if v <= u32::MAX {
            Some(v as u32)
        } else {
            None
        },
        None => None,
    }
}

/// A run of digits holds digits only.
pub proof fn lemma_decimal_digits(s: Seq<char>, k: int)
    requires
        0 <= k < s.len(),
        digit_value(s[k]) is None,
    ensures
        decimal(s) is None,
    decreases s.len(),
{
    if k < s.len() - 1 {
        lemma_decimal_digits(s.drop_last(), k);
    }
}

/// A run of digits is worth at least as much as each of its beginnings.
pub proof fn lemma_decimal_grows(s: Seq<char>, k: int)
    requires
        0 < k <= s.len(),
        decimal(s) is Some,
    ensures
        decimal(s.take(k)) matches Some(v) && v <= decimal(s)->0,
    decreases s.len(),
{
    if k == s.len() {
        assert(s.take(k) =~= s);
    } else {
        lemma_decimal_grows(s.drop_last(), k);
        assert(s.drop_last().take(k) =~= s.take(k));
    }
}

/// The characters of a string.
pub fn chars_of(s: &str) -> (r: Vec<char>)
    ensures
        r@ == s@,
{
    let mut r: Vec<char> = Vec::new();
    for c in it: s.chars()
        invariant
            r@ == it.seq().take(it.index() as int),
    {
        r.push(c);
    }
    r
}

/// The string that `chars` spell: `String::from_iter` over them.
///
/// Taken on trust: the string holds the characters, each in its place.
#[verifier::external_body]
pub(crate) fn string_of(chars: &Vec<char>) -> (s: String)
    ensures
        s@ == chars@,
{
    String::from_iter(chars.iter())
}

/// Whether two strings hold the same characters.
pub fn same_text(a: &str, b: &str) -> (r: bool)
    ensures
        r == (a@ == b@),
{
    a.to_owned() == b.to_owned()
}

/// Whether `needle` stands in `hay` at `at`.
pub fn matches_at(hay: &Vec<char>, needle: &Vec<char>, at: usize) -> (r: bool)
    ensures
        r == occurs_at(hay@, needle@, at as int),
{
    if needle.len() > hay.len() || at > hay.len() - needle.len() {
        return false;
    }
    let mut k: usize = 0;
    while k < needle.len()
        invariant
            k <= needle.len(),
            at + needle.len() <= hay.len(),
            forall|j: int| 0 <= j < k ==> hay@[at + j] == needle@[j],
        decreases needle.len() - k,
    {
        if hay[at + k] != needle[k] {
            assert(hay@.subrange(at as int, at + needle.len())[k as int] == hay@[at + k]);
            return false;
        }
        k += 1;
    }
    assert(hay@.subrange(at as int, at + needle.len()) =~= needle@);
    true
}

/// Whether `needle` stands somewhere in `hay`.
pub fn contains(hay: &Vec<char>, needle: &Vec<char>) -> (r: bool)
    ensures
        r == has_infix(hay@, needle@),
{
    if needle.len() > hay.len() {
        return false;
    }
    let last: usize = hay.len() - needle.len();
    let mut at: usize = 0;
    loop
        invariant
            at <= last,
            last == hay.len() - needle.len(),
            forall|j: int| 0 <= j < at ==> !occurs_at(hay@, needle@, j),
        decreases last - at,
    {
        if matches_at(hay, needle, at) {
            return true;
        }
        if at == last {
            return false;
        }
        at += 1;
    }
}

/// Whether `at` is a place of `s` and `word` is what `s` holds from there
/// on.
pub fn ends_with_at(s: &Vec<char>, word: &Vec<char>, at: usize) -> (r: bool)
    ensures
        r == (at <= s.len() && s@.skip(at as int) == word@),
{
    if at > s.len() || s.len() - at != word.len() {
        return false;
    }
    let r = matches_at(s, word, at);
    assert(s@.skip(at as int) =~= s@.subrange(at as int, at + word.len()));
    r
}

/// The last place from `from` on at which `c` stands in `s`; none where
/// `from` lies behind the end of `s`.
pub fn find_last(s: &Vec<char>, from: usize, c: char) -> (r: Option<usize>)
    ensures
        match r {
            Some(i) => from <= i < s.len() && last_index(s@.skip(from as int), c) == Some(
                i - from,
            ),
            None => from > s.len() || last_index(s@.skip(from as int), c) is None,
        },
{
    if from > s.len() {
        return None;
    }
    let mut j: usize = s.len();
    assert(s@.skip(from as int) =~= s@.subrange(from as int, j as int));
    while j > from
        invariant
            from <= j <= s.len(),
            last_index(s@.skip(from as int), c) == last_index(
                s@.subrange(from as int, j as int),
                c,
            ),
        decreases j,
    {
        if s[j - 1] == c {
            return Some(j - 1);
        }
        assert(s@.subrange(from as int, j as int).drop_last() =~= s@.subrange(
            from as int,
            j - 1,
        ));
        j -= 1;
    }
    None
}

/// Whether the string `needle` stands somewhere in the string `hay`.
pub fn str_contains(hay: &str, needle: &str) -> (r: bool)
    ensures
        r == has_infix(hay@, needle@),
{
    let h = chars_of(hay);
    let n = chars_of(needle);
    contains(&h, &n)
}

/// `s` with every occurrence of `pat` cut out.
pub fn cut_all(s: &Vec<char>, pat: &Vec<char>) -> (r: Vec<char>)
    ensures
        r@ == without(s@, pat@),
{
    let mut r: Vec<char> = Vec::new();
    let mut i: usize = 0;
    assert(r@ + without(s@.skip(0), pat@) =~= without(s@, pat@)) by {
        assert(s@.skip(0) =~= s@);
    }
    while i < s.len()
        invariant
            i <= s.len(),
            r@ + without(s@.skip(i as int), pat@) == without(s@, pat@),
        decreases s.len() - i,
    {
        let ghost rest = s@.skip(i as int);
        if pat.len() > 0 && matches_at(s, pat, i) {
            proof {
                assert(rest.subrange(0, pat@.len() as int) =~= s@.subrange(
                    i as int,
                    i + pat@.len(),
                ));
                assert(rest.skip(pat@.len() as int) =~= s@.skip(i + pat@.len()));
            }
            i += pat.len();
        } else {
            proof {
                if pat@.len() > 0 && occurs_at(rest, pat@, 0) {
                    assert(rest.subrange(0, pat@.len() as int) =~= s@.subrange(
                        i as int,
                        i + pat@.len(),
                    ));
                }
                assert(rest.skip(1) =~= s@.skip(i + 1));
                assert(r@.push(s@[i as int]) + without(rest.skip(1), pat@) =~= r@ + (seq![rest[0]]
                    + without(rest.skip(1), pat@)));
            }
            r.push(s[i]);
            i += 1;
        }
    }
    assert(r@ + without(s@.skip(i as int), pat@) =~= r@);
    r
}

/// Reads `s` as an unsigned 32-bit integer.
pub fn read_u32(s: &Vec<char>) -> (r: Option<u32>)
    ensures
        r == unsigned_32(s@),
{
    let start: usize = if s.len() > 0 && s[0] == '+' {
        1
    } else {
        0
    };
    let ghost digits = if s@.len() > 0 && s@[0] == '+' {
        s@.skip(1)
    } else {
        s@
    };
    assert(digits =~= s@.skip(start as int));
    if start == s.len() {
        return None;
    }
    let mut acc: u64 = 0;
    let mut i: usize = start;
    while i < s.len()
        invariant
            start <= i <= s.len(),
            digits == s@.skip(start as int),
            unsigned_32(s@) == match decimal(digits) {
                Some(v) => if v <= u32::MAX {
                    Some(v as u32)
                } else {
                    None
                },
                None => None,
            },
            i == start ==> acc == 0,
            i > start ==> decimal(digits.take(i - start)) == Some(acc as nat),
            acc <= u32::MAX,
        decreases s.len() - i,
    {
        let c: char = s[i];
        if !(c >= '0' && c <= '9') {
            proof {
                lemma_decimal_digits(digits, i - start);
            }
            return None;
        }
        let d: u64 = (c as u32 - '0' as u32) as u64;
        let next: u64 = acc * 10 + d;
        proof {
            let upto = digits.take(i + 1 - start);
            assert(upto.last() == c);
            assert(upto.drop_last() =~= digits.take(i - start));
            assert(decimal(upto) == Some(next as nat));
            if next > u32::MAX && decimal(digits) is Some {
                lemma_decimal_grows(digits, i + 1 - start);
            }
        }
        if next > 0xffff_ffff {
            return None;
        }
        acc = next;
        i += 1;
    }
    assert(digits.take(i - start) =~= digits);
    Some(acc as u32)
}

} // verus!
