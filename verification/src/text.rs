//! Small text utilities shared by the configuration and proxy modules.

use vstd::prelude::*;

verus! {

/// The ASCII lower-case form of one character; other characters are unchanged.
pub open spec fn ascii_lower(c: char) -> char {
    if 0x41 <= c as u32 && c as u32 <= 0x5a {
        ((c as u32 + 0x20) as u8) as char
    } else {
        c
    }
}

/// The ASCII lower-case form of a text.
pub open spec fn lower(s: Seq<char>) -> Seq<char> {
    Seq::new(s.len(), |i: int| ascii_lower(s[i]))
}

/// Unicode white space, the characters that `trim` strips.
pub open spec fn is_space(c: char) -> bool {
    let u = c as u32;
    ||| 0x09 <= u && u <= 0x0d
    ||| u == 0x20
    ||| u == 0x85
    ||| u == 0xa0
    ||| u == 0x1680
    ||| 0x2000 <= u && u <= 0x200a
    ||| u == 0x2028
    ||| u == 0x2029
    ||| u == 0x202f
    ||| u == 0x205f
    ||| u == 0x3000
}

/// The number of leading white-space characters of `s`.
pub open spec fn leading_spaces(s: Seq<char>) -> nat
    decreases s.len(),
{
    if s.len() > 0 && is_space(s[0]) {
        1 + leading_spaces(s.subrange(1, s.len() as int))
    } else {
        0
    }
}

/// The number of trailing white-space characters of `s`.
pub open spec fn trailing_spaces(s: Seq<char>) -> nat
    decreases s.len(),
{
    if s.len() > 0 && is_space(s.last()) {
        1 + trailing_spaces(s.drop_last())
    } else {
        0
    }
}

/// `s` without its leading and trailing white space.
pub open spec fn trimmed(s: Seq<char>) -> Seq<char> {
    let start = leading_spaces(s);
    let rest = s.subrange(start as int, s.len() as int);
    rest.subrange(0, rest.len() - trailing_spaces(rest))
}

/// The position of the first `sep` in `s` at or after `from`, or the length
/// of `s` where there is none.
pub open spec fn next_sep(s: Seq<char>, sep: char, from: int) -> int
    decreases s.len() - from,
{
    if from < 0 || from >= s.len() {
        s.len() as int
    } else if s[from] == sep {
        from
    } else {
        next_sep(s, sep, from + 1)
    }
}

/// The pieces of `s` between occurrences of `sep`, starting at `from`. A text
/// without separator is one piece; so is the empty text.
pub open spec fn split_from(s: Seq<char>, sep: char, from: int) -> Seq<Seq<char>>
    decreases s.len() - from,
    via split_from_terminates
{
    if from < 0 || from > s.len() {
        Seq::empty()
    } else {
        let end = next_sep(s, sep, from);
        if end >= s.len() {
            seq![s.subrange(from, s.len() as int)]
        } else {
            seq![s.subrange(from, end)] + split_from(s, sep, end + 1)
        }
    }
}

#[via_fn]
proof fn split_from_terminates(s: Seq<char>, sep: char, from: int) {
    if 0 <= from <= s.len() {
        lemma_next_sep_bounds(s, sep, from);
    }
}

/// The pieces of `s` between occurrences of `sep`.
pub open spec fn split(s: Seq<char>, sep: char) -> Seq<Seq<char>> {
    split_from(s, sep, 0)
}

/// `str::eq`: two texts are equal when they hold the same characters.
#[verifier::external_body]
pub(crate) fn str_eq(a: &str, b: &str) -> (r: bool)
    ensures
        r == (a@ == b@),
{
    a == b
}

/// `str::to_ascii_lowercase`: maps `A`..`Z` to `a`..`z` and keeps every
/// other character.
#[verifier::external_body]
pub(crate) fn to_ascii_lowercase(s: &str) -> (r: String)
    ensures
        r@ == lower(s@),
{
    s.to_ascii_lowercase()
}

/// Whether `c` is white space.
pub fn char_is_space(c: char) -> (r: bool)
    ensures
        r == is_space(c),
{
    let u: u32 = c as u32;
    (0x09 <= u && u <= 0x0d) || u == 0x20 || u == 0x85 || u == 0xa0 || u == 0x1680 || (0x2000 <= u
        && u <= 0x200a) || u == 0x2028 || u == 0x2029 || u == 0x202f || u == 0x205f || u == 0x3000
}

proof fn lemma_next_sep_bounds(s: Seq<char>, sep: char, from: int)
    requires
        0 <= from <= s.len(),
    ensures
        from <= next_sep(s, sep, from) <= s.len(),
        next_sep(s, sep, from) < s.len() ==> s[next_sep(s, sep, from)] == sep,
        forall|k: int| from <= k < next_sep(s, sep, from) ==> s[k] != sep,
    decreases s.len() - from,
{
    if from < s.len() && s[from] != sep {
        lemma_next_sep_bounds(s, sep, from + 1);
    }
}

proof fn lemma_leading_spaces(s: Seq<char>)
    ensures
        leading_spaces(s) <= s.len(),
        forall|k: int| 0 <= k < leading_spaces(s) ==> is_space(#[trigger] s[k]),
        leading_spaces(s) < s.len() ==> !is_space(s[leading_spaces(s) as int]),
    decreases s.len(),
{
    if s.len() > 0 && is_space(s[0]) {
        let t = s.subrange(1, s.len() as int);
        lemma_leading_spaces(t);
        assert forall|k: int| 0 <= k < leading_spaces(s) implies is_space(#[trigger] s[k]) by {
            if k > 0 {
                assert(s[k] == t[k - 1]);
            }
        }
        if leading_spaces(s) < s.len() {
            assert(s[leading_spaces(s) as int] == t[leading_spaces(t) as int]);
        }
    }
}

proof fn lemma_leading_spaces_unique(s: Seq<char>, n: int)
    requires
        0 <= n <= s.len(),
        forall|k: int| 0 <= k < n ==> is_space(#[trigger] s[k]),
        n < s.len() ==> !is_space(s[n]),
    ensures
        leading_spaces(s) == n,
    decreases s.len(),
{
    if n > 0 {
        let t = s.subrange(1, s.len() as int);
        assert(is_space(s[0]));
        assert forall|k: int| 0 <= k < n - 1 implies is_space(#[trigger] t[k]) by {
            assert(t[k] == s[k + 1]);
        }
        lemma_leading_spaces_unique(t, n - 1);
    }
}

proof fn lemma_trailing_spaces_unique(s: Seq<char>, n: int)
    requires
        0 <= n <= s.len(),
        forall|k: int| s.len() - n <= k < s.len() ==> is_space(#[trigger] s[k]),
        n < s.len() ==> !is_space(s[s.len() - n - 1]),
    ensures
        trailing_spaces(s) == n,
    decreases s.len(),
{
    if n > 0 {
        let t = s.drop_last();
        assert(is_space(s[s.len() - 1]));
        assert forall|k: int| t.len() - (n - 1) <= k < t.len() implies is_space(#[trigger] t[k]) by {
            assert(t[k] == s[k]);
        }
        lemma_trailing_spaces_unique(t, n - 1);
    }
}

/// The characters of a text, one by one.
pub fn chars_of(s: &str) -> (v: Vec<char>)
    ensures
        v@ == s@,
{
    let n = s.unicode_len();
    let mut v: Vec<char> = Vec::new();
    let mut i: usize = 0;
    while i < n
        invariant
            n == s@.len(),
            i <= n,
            v@ == s@.subrange(0, i as int),
        decreases n - i,
    {
        v.push(s.get_char(i));
        assert(v@ == s@.subrange(0, i + 1));
        i += 1;
    }
    assert(v@ == s@);
    v
}

/// The text without leading and trailing white space, as `str::trim` gives it.
pub fn trim<'a>(s: &'a str) -> (r: &'a str)
    ensures
        r@ == trimmed(s@),
{
    let chars = chars_of(s);
    let n = chars.len();
    let mut start: usize = 0;
    while start < n && char_is_space(chars[start])
        invariant
            n == chars@.len(),
            start <= n,
            forall|k: int| 0 <= k < start ==> is_space(#[trigger] chars@[k]),
        decreases n - start,
    {
        start += 1;
    }
    let mut end: usize = n;
    while end > start && char_is_space(chars[end - 1])
        invariant
            n == chars@.len(),
            start <= end <= n,
            forall|k: int| end <= k < n ==> is_space(#[trigger] chars@[k]),
        decreases end,
    {
        end -= 1;
    }
    proof {
        lemma_leading_spaces_unique(s@, start as int);
        let rest = s@.subrange(start as int, n as int);
        assert forall|k: int| rest.len() - (n - end) <= k < rest.len() implies is_space(
            #[trigger] rest[k],
        ) by {
            assert(rest[k] == chars@[k + start]);
        }
        if n - end < rest.len() {
            assert(rest[rest.len() - (n - end) - 1] == chars@[end - 1]);
        }
        lemma_trailing_spaces_unique(rest, (n - end) as int);
        assert(rest.subrange(0, rest.len() - (n - end)) == s@.subrange(start as int, end as int));
    }
    s.substring_char(start, end)
}

/// The pieces of `s` between occurrences of `sep`, in order.
pub fn split_on<'a>(s: &'a str, sep: char) -> (pieces: Vec<&'a str>)
    ensures
        pieces@.map_values(|p: &str| p@) == split(s@, sep),
{
    let chars = chars_of(s);
    let n = chars.len();
    let mut pieces: Vec<&'a str> = Vec::new();
    let mut from: usize = 0;
    let mut i: usize = 0;
    while i < n
        invariant
            n == chars@.len(),
            chars@ == s@,
            from <= i <= n,
            forall|k: int| from <= k < i ==> chars@[k] != sep,
            pieces@.map_values(|p: &str| p@) + split_from(s@, sep, from as int) == split(s@, sep),
        decreases n - i,
    {
        if chars[i] == sep {
            let piece = s.substring_char(from, i);
            proof {
                lemma_next_sep_at(s@, sep, from as int, i as int);
                let before = pieces@.map_values(|p: &str| p@);
                let after = pieces@.push(piece).map_values(|p: &str| p@);
                assert(after == before.push(piece@));
                assert(before + (seq![piece@] + split_from(s@, sep, i + 1)) == after + split_from(
                    s@,
                    sep,
                    i + 1,
                ));
            }
            pieces.push(piece);
            from = i + 1;
        }
        i += 1;
    }
    let piece = s.substring_char(from, n);
    proof {
        lemma_next_sep_at(s@, sep, from as int, n as int);
        let before = pieces@.map_values(|p: &str| p@);
        let after = pieces@.push(piece).map_values(|p: &str| p@);
        assert(after == before.push(piece@));
        assert(before + seq![piece@] == after);
    }
    pieces.push(piece);
    pieces
}

proof fn lemma_next_sep_at(s: Seq<char>, sep: char, from: int, at: int)
    requires
        0 <= from <= at <= s.len(),
        forall|k: int| from <= k < at ==> s[k] != sep,
        at < s.len() ==> s[at] == sep,
    ensures
        next_sep(s, sep, from) == at,
    decreases at - from,
{
    if from < at {
        lemma_next_sep_at(s, sep, from + 1, at);
    }
}

} // verus!
