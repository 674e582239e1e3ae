//! Text operations, each stated over the sequence of characters that a string holds.
//!
//! Strings are taken apart into slices of characters, worked on there, and put together again.

use vstd::prelude::*;
use vstd::slice::slice_subrange;

verus! {

/// `String::from` on a string slice: the owned string holds the same characters.
pub assume_specification<'a>[ <String as From<&'a str>>::from ](s: &str) -> (owned: String)
    ensures
        owned@ == s@,
;

/// `String::push`: appends one character at the end.
pub assume_specification[ String::push ](s: &mut String, c: char)
    ensures
        final(s)@ == old(s)@.push(c),
;

/// An optional string as an optional sequence of characters.
pub open spec fn optional(s: Option<String>) -> Option<Seq<char>> {
    match s {
        Some(s) => Some(s@),
        None => None,
    }
}

/// The characters of a string, one by one.
pub fn to_chars(s: &str) -> (chars: Vec<char>)
    ensures
        chars@ == s@,
{
    let mut chars: Vec<char> = Vec::new();
    for c in it: s.chars()
        invariant
            it.seq() == s@,
            chars@ == s@.take(it.index() as int),
    {
        chars.push(c);
    }
    assert(s@.take(s@.len() as int) =~= s@);
    chars
}

/// The string made of the given characters.
pub fn from_chars(chars: &[char]) -> (s: String)
    ensures
        s@ == chars@,
{
    let mut s = String::new();
    let mut i: usize = 0;
    while i < chars.len()
        invariant
            i <= chars@.len(),
            s@ == chars@.take(i as int),
        decreases chars@.len() - i,
    {
        s.push(chars[i]);
        assert(chars@.take(i + 1) =~= chars@.take(i as int).push(chars@[i as int]));
        i += 1;
    }
    assert(chars@.take(chars@.len() as int) =~= chars@);
    s
}

/// Whether two character slices hold the same text.
pub fn same(a: &[char], b: &[char]) -> (equal: bool)
    ensures
        equal == (a@ == b@),
{
    if a.len() != b.len() {
        return false;
    }
    let mut i: usize = 0;
    while i < a.len()
        invariant
            i <= a@.len() == b@.len(),
            forall|j: int| 0 <= j < i ==> a@[j] == b@[j],
        decreases a@.len() - i,
    {
        if a[i] != b[i] {
            return false;
        }
        i += 1;
    }
    assert(a@ =~= b@);
    true
}

/// The characters that Unicode calls white space.
pub open spec fn is_white(c: char) -> bool {
    ||| 0x09 <= c as u32 <= 0x0d
    ||| c as u32 == 0x20
    ||| c as u32 == 0x85
    ||| c as u32 == 0xa0
    ||| c as u32 == 0x1680
    ||| 0x2000 <= c as u32 <= 0x200a
    ||| 0x2028 <= c as u32 <= 0x2029
    ||| c as u32 == 0x202f
    ||| c as u32 == 0x205f
    ||| c as u32 == 0x3000
}

/// Whether a character is Unicode white space.
pub fn is_whitespace(c: char) -> (white: bool)
    ensures
        white == is_white(c),
{
    let n: u32 = c as u32;
    (0x09 <= n && n <= 0x0d) || n == 0x20 || n == 0x85 || n == 0xa0 || n == 0x1680 || (0x2000 <= n
        && n <= 0x200a) || (0x2028 <= n && n <= 0x2029) || n == 0x202f || n == 0x205f || n == 0x3000
}

/// White space, as a class of characters.
pub open spec fn white() -> spec_fn(char) -> bool {
    |c: char| is_white(c)
}

/// What is left of `s` once its leading characters of the class `f` are gone.
pub open spec fn skip_while(s: Seq<char>, f: spec_fn(char) -> bool) -> Seq<char>
    decreases s.len(),
{
    if s.len() > 0 && f(s[0]) {
        skip_while(s.drop_first(), f)
    } else {
        s
    }
}

/// What is left of `s` once its trailing characters of the class `f` are gone.
pub open spec fn drop_trailing(s: Seq<char>, f: spec_fn(char) -> bool) -> Seq<char>
    decreases s.len(),
{
    if s.len() > 0 && f(s.last()) {
        drop_trailing(s.drop_last(), f)
    } else {
        s
    }
}

/// `s` without the white space at its two ends.
pub open spec fn trimmed(s: Seq<char>) -> Seq<char> {
    drop_trailing(skip_while(s, white()), white())
}

/// The part of `s` that follows its leading characters of the class `f`.
pub(crate) fn after_leading<'a, F: Fn(char) -> bool>(
    s: &'a [char],
    class: F,
    Ghost(f): Ghost<spec_fn(char) -> bool>,
) -> (rest: &'a [char])
    requires
        forall|c: char| #[trigger] call_requires(class, (c,)),
        forall|c: char, b: bool| #[trigger] call_ensures(class, (c,), b) ==> b == f(c),
    ensures
        rest@ == skip_while(s@, f),
{
    let mut i: usize = 0;
    assert(s@.skip(0) =~= s@);
    while i < s.len() && class(s[i])
        invariant
            i <= s@.len(),
            forall|c: char| #[trigger] call_requires(class, (c,)),
            forall|c: char, b: bool| #[trigger] call_ensures(class, (c,), b) ==> b == f(c),
            skip_while(s@, f) == skip_while(s@.skip(i as int), f),
        ensures
            i <= s@.len(),
            skip_while(s@, f) == skip_while(s@.skip(i as int), f),
            i < s@.len() ==> !f(s@[i as int]),
        decreases s@.len() - i,
    {
        assert(s@.skip(i as int).drop_first() =~= s@.skip(i + 1));
        i += 1;
    }
    slice_subrange(s, i, s.len())
}

/// The part of `s` that comes before its trailing characters of the class `f`.
pub(crate) fn before_trailing<'a, F: Fn(char) -> bool>(
    s: &'a [char],
    class: F,
    Ghost(f): Ghost<spec_fn(char) -> bool>,
) -> (rest: &'a [char])
    requires
        forall|c: char| #[trigger] call_requires(class, (c,)),
        forall|c: char, b: bool| #[trigger] call_ensures(class, (c,), b) ==> b == f(c),
    ensures
        rest@ == drop_trailing(s@, f),
{
    let mut n: usize = s.len();
    assert(s@.take(n as int) =~= s@);
    while n > 0 && class(s[n - 1])
        invariant
            n <= s@.len(),
            forall|c: char| #[trigger] call_requires(class, (c,)),
            forall|c: char, b: bool| #[trigger] call_ensures(class, (c,), b) ==> b == f(c),
            drop_trailing(s@, f) == drop_trailing(s@.take(n as int), f),
        ensures
            n <= s@.len(),
            drop_trailing(s@, f) == drop_trailing(s@.take(n as int), f),
            n > 0 ==> !f(s@[n - 1]),
        decreases n,
    {
        assert(s@.take(n as int).drop_last() =~= s@.take(n - 1));
        n -= 1;
    }
    slice_subrange(s, 0, n)
}

/// Cuts the white space off both ends.
pub fn trim(s: &[char]) -> (rest: &[char])
    ensures
        rest@ == trimmed(s@),
{
    let rest = after_leading(s, is_whitespace, Ghost(white()));
    before_trailing(rest, is_whitespace, Ghost(white()))
}

/// Where `c` first stands in `s`, or the length of `s` when it does not occur.
pub open spec fn find(s: Seq<char>, c: char) -> int
    decreases s.len(),
{
    if s.len() == 0 || s[0] == c {
        0
    } else {
        1 + find(s.drop_first(), c)
    }
}

/// `find` points at the first occurrence, and nothing else does.
pub proof fn lemma_find(s: Seq<char>, c: char, k: int)
    ensures
        0 <= find(s, c) <= s.len(),
        forall|j: int| 0 <= j < find(s, c) ==> s[j] != c,
        find(s, c) < s.len() ==> s[find(s, c)] == c,
        0 <= k <= s.len() && (k < s.len() ==> s[k] == c) && (forall|j: int|
            0 <= j < k ==> s[j] != c) ==> k == find(s, c),
    decreases s.len(),
{
    if s.len() > 0 && s[0] != c {
        let rest = s.drop_first();
        lemma_find(rest, c, k - 1);
        assert forall|j: int| 0 <= j < find(s, c) implies s[j] != c by {
            if j > 0 {
                assert(rest[j - 1] == s[j]);
            }
        }
        if 0 < k <= s.len() && (k < s.len() ==> s[k] == c) && (forall|j: int|
            0 <= j < k ==> s[j] != c) {
            assert forall|j: int| 0 <= j < k - 1 implies rest[j] != c by {
                assert(rest[j] == s[j + 1]);
            }
        }
    }
}

/// The index of the first `c`, or the length.
pub fn find_char(s: &[char], c: char) -> (k: usize)
    ensures
        k == find(s@, c),
        k <= s@.len(),
{
    let mut k: usize = 0;
    while k < s.len() && s[k] != c
        invariant
            k <= s@.len(),
            forall|j: int| 0 <= j < k ==> s@[j] != c,
        ensures
            k <= s@.len(),
            forall|j: int| 0 <= j < k ==> s@[j] != c,
            k < s@.len() ==> s@[k as int] == c,
        decreases s@.len() - k,
    {
        k += 1;
    }
    proof {
        lemma_find(s@, c, k as int);
    }
    k
}

/// The texts that a list of character slices holds.
pub open spec fn pieces(list: Seq<&[char]>) -> Seq<Seq<char>> {
    Seq::new(list.len(), |i: int| list[i]@)
}

/// The parts of `s` between the separators `c`; always at least one.
pub open spec fn split(s: Seq<char>, c: char) -> Seq<Seq<char>>
    decreases s.len(),
    via split_shrinks
{
    let k = find(s, c);
    if k >= s.len() {
        seq![s]
    } else {
        seq![s.take(k)] + split(s.skip(k + 1), c)
    }
}

#[via_fn]
proof fn split_shrinks(s: Seq<char>, c: char) {
    lemma_find(s, c, 0);
}

/// Cuts a text at every `c`.
pub fn split_at_char(s: &[char], c: char) -> (parts: Vec<&[char]>)
    ensures
        pieces(parts@) == split(s@, c),
        parts@.len() >= 1,
{
    let mut parts: Vec<&[char]> = Vec::new();
    let mut rest: &[char] = s;
    assert(pieces(parts@) + split(rest@, c) =~= split(s@, c));
    loop
        invariant
            pieces(parts@) + split(rest@, c) == split(s@, c),
        decreases rest@.len(),
    {
        let k = find_char(rest, c);
        let ghost done = pieces(parts@);
        let ghost whole = rest@;
        if k >= rest.len() {
            parts.push(rest);
            assert(pieces(parts@) =~= done + seq![whole]);
            return parts;
        }
        let part = slice_subrange(rest, 0, k);
        parts.push(part);
        rest = slice_subrange(rest, k + 1, rest.len());
        assert(part@ =~= whole.take(k as int));
        assert(rest@ =~= whole.skip(k + 1));
        assert(pieces(parts@) =~= done + seq![whole.take(k as int)]);
        assert(pieces(parts@) + split(rest@, c) =~= done + split(whole, c));
    }
}

/// The part of `s` before its first `c`; all of `s` when there is none.
pub open spec fn before(s: Seq<char>, c: char) -> Seq<char> {
    s.take(find(s, c))
}

/// Keeps what stands before the first `c`.
pub fn cut_before(s: &[char], c: char) -> (part: &[char])
    ensures
        part@ == before(s@, c),
{
    let k = find_char(s, c);
    slice_subrange(s, 0, k)
}

/// The part of `s` after its last `c`; all of `s` when there is none.
pub open spec fn after_last(s: Seq<char>, c: char) -> Seq<char>
    decreases s.len(),
{
    if s.len() == 0 || s.last() == c {
        Seq::empty()
    } else {
        after_last(s.drop_last(), c).push(s.last())
    }
}

/// Keeps what stands after the last `c`.
pub fn cut_after_last(s: &[char], c: char) -> (part: &[char])
    ensures
        part@ == after_last(s@, c),
{
    let mut n: usize = s.len();
    assert(s@.take(n as int) =~= s@);
    assert(s@.skip(n as int) =~= Seq::empty());
    assert(after_last(s@, c) =~= after_last(s@.take(n as int), c) + s@.skip(n as int));
    while n > 0 && s[n - 1] != c
        invariant
            n <= s@.len(),
            after_last(s@, c) == after_last(s@.take(n as int), c) + s@.skip(n as int),
        ensures
            n <= s@.len(),
            after_last(s@, c) == after_last(s@.take(n as int), c) + s@.skip(n as int),
            n > 0 ==> s@[n - 1] == c,
        decreases n,
    {
        let ghost head = s@.take(n as int);
        assert(head.drop_last() =~= s@.take(n - 1));
        assert(after_last(s@.take(n - 1), c) + s@.skip(n - 1) =~= after_last(head, c) + s@.skip(
            n as int,
        ));
        n -= 1;
    }
    assert(after_last(s@.take(n as int), c) =~= Seq::empty());
    assert(after_last(s@, c) =~= s@.skip(n as int));
    slice_subrange(s, n, s.len())
}

/// A line without the carriage return that belongs to its line ending.
pub open spec fn strip_return(s: Seq<char>) -> Seq<char> {
    if s.len() > 0 && s.last() == '\r' {
        s.drop_last()
    } else {
        s
    }
}

/// The lines of `s`. A line ends with a line feed, or with a carriage return and a line feed; the
/// last line may go without.
pub open spec fn lines(s: Seq<char>) -> Seq<Seq<char>>
    decreases s.len(),
    via lines_shrinks
{
    let k = find(s, '\n');
    if s.len() == 0 {
        Seq::empty()
    } else if k >= s.len() {
        seq![s]
    } else {
        seq![strip_return(s.take(k))] + lines(s.skip(k + 1))
    }
}

#[via_fn]
proof fn lines_shrinks(s: Seq<char>) {
    lemma_find(s, '\n', 0);
}

/// Cuts a text into its lines.
pub fn split_lines(s: &[char]) -> (list: Vec<&[char]>)
    ensures
        pieces(list@) == lines(s@),
{
    let mut list: Vec<&[char]> = Vec::new();
    let mut rest: &[char] = s;
    assert(pieces(list@) + lines(rest@) =~= lines(s@));
    while rest.len() > 0
        invariant
            pieces(list@) + lines(rest@) == lines(s@),
        decreases rest@.len(),
    {
        let k = find_char(rest, '\n');
        let ghost done = pieces(list@);
        let ghost whole = rest@;
        if k >= rest.len() {
            list.push(rest);
            assert(pieces(list@) =~= done + seq![whole]);
            return list;
        }
        let mut end: usize = k;
        if end > 0 && rest[end - 1] == '\r' {
            end -= 1;
        }
        let line = slice_subrange(rest, 0, end);
        assert(line@ =~= strip_return(whole.take(k as int)));
        list.push(line);
        rest = slice_subrange(rest, k + 1, rest.len());
        assert(rest@ =~= whole.skip(k + 1));
        assert(pieces(list@) =~= done + seq![strip_return(whole.take(k as int))]);
        assert(pieces(list@) + lines(rest@) =~= done + lines(whole));
    }
    assert(pieces(list@) + lines(rest@) =~= pieces(list@));
    list
}

/// The length of the stretch without white space that `s` begins with.
pub open spec fn word_len(s: Seq<char>) -> int
    decreases s.len(),
{
    if s.len() == 0 || is_white(s[0]) {
        0
    } else {
        1 + word_len(s.drop_first())
    }
}

proof fn lemma_word_len(s: Seq<char>, k: int)
    ensures
        0 <= word_len(s) <= s.len(),
        s.len() > 0 && !is_white(s[0]) ==> word_len(s) > 0,
        0 <= k <= s.len() && (k < s.len() ==> is_white(s[k])) && (forall|j: int|
            0 <= j < k ==> !is_white(s[j])) ==> k == word_len(s),
    decreases s.len(),
{
    if s.len() > 0 && !is_white(s[0]) {
        let rest = s.drop_first();
        lemma_word_len(rest, k - 1);
        if 0 <= k <= s.len() && (k < s.len() ==> is_white(s[k])) && (forall|j: int|
            0 <= j < k ==> !is_white(s[j])) {
            assert(k > 0);
            assert forall|j: int| 0 <= j < k - 1 implies !is_white(rest[j]) by {
                assert(rest[j] == s[j + 1]);
            }
        }
    }
}

/// `skip_while` leaves an end of `s` that does not begin with the class.
pub proof fn lemma_skip_while(s: Seq<char>, f: spec_fn(char) -> bool)
    ensures
        skip_while(s, f).len() <= s.len(),
        skip_while(s, f) == s.skip(s.len() - skip_while(s, f).len()),
        skip_while(s, f).len() > 0 ==> !f(skip_while(s, f)[0]),
        forall|i: int| 0 <= i < s.len() - skip_while(s, f).len() ==> f(s[i]),
    decreases s.len(),
{
    if s.len() > 0 && f(s[0]) {
        let rest = s.drop_first();
        lemma_skip_while(rest, f);
        assert(rest.skip(rest.len() - skip_while(rest, f).len()) =~= s.skip(
            s.len() - skip_while(rest, f).len(),
        ));
        assert forall|i: int| 0 <= i < s.len() - skip_while(s, f).len() implies f(s[i]) by {
            if i > 0 {
                assert(rest[i - 1] == s[i]);
            }
        }
    } else {
        assert(s.skip(0) =~= s);
    }
}

/// The stretches of `s` that white space sets apart.
pub open spec fn words(s: Seq<char>) -> Seq<Seq<char>>
    decreases s.len(),
    via words_shrinks
{
    let rest = skip_while(s, white());
    if rest.len() == 0 {
        Seq::empty()
    } else {
        seq![rest.take(word_len(rest))] + words(rest.skip(word_len(rest)))
    }
}

#[via_fn]
proof fn words_shrinks(s: Seq<char>) {
    lemma_skip_while(s, white());
    lemma_word_len(skip_while(s, white()), 0);
}

/// Cuts a text into its words.
pub fn split_words(s: &[char]) -> (list: Vec<&[char]>)
    ensures
        pieces(list@) == words(s@),
{
    let mut list: Vec<&[char]> = Vec::new();
    let mut rest: &[char] = s;
    assert(pieces(list@) + words(rest@) =~= words(s@));
    loop
        invariant
            pieces(list@) + words(rest@) == words(s@),
        decreases rest@.len(),
    {
        let ghost whole = rest@;
        let ghost done = pieces(list@);
        let tail = after_leading(rest, is_whitespace, Ghost(white()));
        proof {
            lemma_skip_while(whole, white());
        }
        if tail.len() == 0 {
            assert(done + words(whole) =~= done);
            return list;
        }
        let mut k: usize = 0;
        while k < tail.len() && !is_whitespace(tail[k])
            invariant
                k <= tail@.len(),
                forall|j: int| 0 <= j < k ==> !is_white(tail@[j]),
            ensures
                k <= tail@.len(),
                forall|j: int| 0 <= j < k ==> !is_white(tail@[j]),
                k < tail@.len() ==> is_white(tail@[k as int]),
            decreases tail@.len() - k,
        {
            k += 1;
        }
        proof {
            lemma_word_len(tail@, k as int);
        }
        let word = slice_subrange(tail, 0, k);
        list.push(word);
        rest = slice_subrange(tail, k, tail.len());
        assert(word@ =~= tail@.take(k as int));
        assert(rest@ =~= tail@.skip(k as int));
        assert(pieces(list@) =~= done + seq![tail@.take(k as int)]);
        assert(pieces(list@) + words(rest@) =~= done + words(whole));
    }
}

/// Whether `needle` stands in `hay` from index `i` on.
pub open spec fn occurs_at(hay: Seq<char>, needle: Seq<char>, i: int) -> bool {
    0 <= i && i + needle.len() <= hay.len() && hay.subrange(i, i + needle.len()) == needle
}

/// Whether `needle` stands anywhere in `hay`.
pub open spec fn holds(hay: Seq<char>, needle: Seq<char>) -> bool {
    exists|i: int| occurs_at(hay, needle, i)
}

/// Whether `hay` begins with `needle`.
pub open spec fn begins(hay: Seq<char>, needle: Seq<char>) -> bool {
    occurs_at(hay, needle, 0)
}

/// Whether `hay` ends with `needle`.
pub open spec fn ends(hay: Seq<char>, needle: Seq<char>) -> bool {
    occurs_at(hay, needle, hay.len() - needle.len())
}

/// Tests for `needle` at one place.
fn found_at(hay: &[char], needle: &[char], i: usize) -> (found: bool)
    requires
        i + needle@.len() <= hay@.len(),
    ensures
        found == occurs_at(hay@, needle@, i as int),
{
    let end: usize = hay.len() - (hay.len() - i - needle.len());
    same(slice_subrange(hay, i, end), needle)
}

/// Tests whether a text begins with another.
pub fn starts_with(hay: &[char], needle: &[char]) -> (found: bool)
    ensures
        found == begins(hay@, needle@),
{
    needle.len() <= hay.len() && found_at(hay, needle, 0)
}

/// Tests whether a text stands somewhere in another.
pub fn contains(hay: &[char], needle: &[char]) -> (found: bool)
    ensures
        found == holds(hay@, needle@),
{
    if needle.len() > hay.len() {
        return false;
    }
    let last: usize = hay.len() - needle.len();
    let mut i: usize = 0;
    while i < last
        invariant
            last == hay@.len() - needle@.len(),
            i <= last,
            forall|j: int| 0 <= j < i ==> !occurs_at(hay@, needle@, j),
        decreases last - i,
    {
        if found_at(hay, needle, i) {
            return true;
        }
        i += 1;
    }
    found_at(hay, needle, last)
}

/// A character with the ASCII capitals made small.
pub open spec fn ascii_lower(c: char) -> char {
    if 'A' <= c <= 'Z' {
        (c as u8 + 32) as char
    } else {
        c
    }
}

/// Whether two texts are the same but for the case of ASCII letters.
pub open spec fn same_ignoring_case(a: Seq<char>, b: Seq<char>) -> bool {
    a.len() == b.len() && forall|i: int|
        0 <= i < a.len() ==> ascii_lower(#[trigger] a[i]) == ascii_lower(b[i])
}

/// Makes an ASCII capital small.
fn lower(c: char) -> (small: char)
    ensures
        small == ascii_lower(c),
{
    if 'A' <= c && c <= 'Z' {
        (c as u8 + 32) as char
    } else {
        c
    }
}

/// Compares two texts without regard to the case of ASCII letters.
pub fn eq_ignore_ascii_case(a: &[char], b: &[char]) -> (equal: bool)
    ensures
        equal == same_ignoring_case(a@, b@),
{
    if a.len() != b.len() {
        return false;
    }
    let mut i: usize = 0;
    while i < a.len()
        invariant
            i <= a@.len() == b@.len(),
            forall|j: int| 0 <= j < i ==> ascii_lower(#[trigger] a@[j]) == ascii_lower(b@[j]),
        decreases a@.len() - i,
    {
        if lower(a[i]) != lower(b[i]) {
            return false;
        }
        i += 1;
    }
    true
}

/// `s` with every `c` replaced by `with`.
pub open spec fn replaced(s: Seq<char>, c: char, with: Seq<char>) -> Seq<char>
    decreases s.len(),
{
    if s.len() == 0 {
        Seq::empty()
    } else if s.last() == c {
        replaced(s.drop_last(), c, with) + with
    } else {
        replaced(s.drop_last(), c, with).push(s.last())
    }
}

/// Replaces every `c` by `with`.
pub fn replace_char(s: &str, c: char, with: &str) -> (out: String)
    ensures
        out@ == replaced(s@, c, with@),
{
    let chars = to_chars(s);
    let mut out = String::new();
    let mut i: usize = 0;
    while i < chars.len()
        invariant
            i <= chars@.len(),
            out@ == replaced(chars@.take(i as int), c, with@),
        decreases chars@.len() - i,
    {
        assert(chars@.take(i + 1).drop_last() =~= chars@.take(i as int));
        if chars[i] == c {
            out.append(with);
        } else {
            out.push(chars[i]);
        }
        i += 1;
    }
    assert(chars@.take(chars@.len() as int) =~= chars@);
    out
}

/// `s` with every `%s` replaced by `value`, from left to right.
pub open spec fn filled(s: Seq<char>, value: Seq<char>) -> Seq<char>
    decreases s.len(),
{
    if s.len() >= 2 && s[0] == '%' && s[1] == 's' {
        value + filled(s.skip(2), value)
    } else if s.len() == 0 {
        s
    } else {
        seq![s[0]] + filled(s.skip(1), value)
    }
}

/// Replaces every `%s` in a template by `value`.
pub fn fill(template: &str, value: &str) -> (out: String)
    ensures
        out@ == filled(template@, value@),
{
    let chars = to_chars(template);
    let mut out = String::new();
    let mut i: usize = 0;
    assert(chars@.skip(0) =~= chars@);
    assert(out@ + filled(chars@, value@) =~= filled(chars@, value@));
    while i < chars.len()
        invariant
            i <= chars@.len(),
            out@ + filled(chars@.skip(i as int), value@) == filled(chars@, value@),
        decreases chars@.len() - i,
    {
        let ghost rest = chars@.skip(i as int);
        let ghost done = out@;
        if chars.len() - i >= 2 && chars[i] == '%' && chars[i + 1] == 's' {
            out.append(value);
            assert(rest.skip(2) =~= chars@.skip(i + 2));
            assert(out@ + filled(rest.skip(2), value@) =~= done + filled(rest, value@));
            i += 2;
        } else {
            out.push(chars[i]);
            assert(rest.skip(1) =~= chars@.skip(i + 1));
            assert(out@ + filled(rest.skip(1), value@) =~= done + filled(rest, value@));
            i += 1;
        }
    }
    assert(out@ + filled(chars@.skip(chars@.len() as int), value@) =~= out@);
    out
}

/// The texts of `list`, with `sep` between each and the next.
pub open spec fn joined(list: Seq<Seq<char>>, sep: Seq<char>) -> Seq<char>
    decreases list.len(),
{
    if list.len() == 0 {
        Seq::empty()
    } else if list.len() == 1 {
        list[0]
    } else {
        joined(list.drop_last(), sep) + sep + list.last()
    }
}

/// The code of the digit zero.
const ZERO: u8 = 48;

/// The decimal digit for a number below ten.
pub open spec fn digit(d: int) -> char {
    ('0' as u8 + d) as char
}

/// The decimal digits of a number, without leading zeros.
pub open spec fn decimal(n: nat) -> Seq<char>
    decreases n,
{
    if n < 10 {
        seq![digit(n as int)]
    } else {
        decimal(n / 10).push(digit((n % 10) as int))
    }
}

/// Writes a number in decimal.
pub fn to_decimal(n: u128) -> (out: String)
    ensures
        out@ == decimal(n as nat),
    decreases n,
{
    if n < 10 {
        let mut out = String::new();
        out.push((ZERO + n as u8) as char);
        assert(out@ =~= decimal(n as nat));
        out
    } else {
        let mut out = to_decimal(n / 10);
        out.push((ZERO + (n % 10) as u8) as char);
        out
    }
}

/// Whether a character is a decimal digit of ASCII.
pub open spec fn is_digit(c: char) -> bool {
    '0' <= c <= '9'
}

/// The number that a text of decimal digits writes.
pub open spec fn digits_value(s: Seq<char>) -> nat
    decreases s.len(),
{
    if s.len() == 0 {
        0
    } else {
        digits_value(s.drop_last()) * 10 + (s.last() as nat - '0' as nat) as nat
    }
}

/// `s` without the plus sign that may lead a number.
pub open spec fn unsigned_part(s: Seq<char>) -> Seq<char> {
    if s.len() > 0 && s[0] == '+' {
        s.drop_first()
    } else {
        s
    }
}

/// The number that `s` writes: one decimal digit or more, after an optional plus sign, that fit in
/// sixty-four bits.
pub open spec fn number(s: Seq<char>) -> Option<u64> {
    let digits = unsigned_part(s);
    if digits.len() > 0 && (forall|i: int| 0 <= i < digits.len() ==> is_digit(#[trigger] digits[i]))
        && digits_value(digits) <= u64::MAX {
        Some(digits_value(digits) as u64)
    } else {
        None
    }
}

/// More digits never make a smaller number.
proof fn lemma_digits_grow(s: Seq<char>, i: int)
    requires
        0 <= i <= s.len(),
    ensures
        digits_value(s.take(i)) <= digits_value(s),
    decreases s.len() - i,
{
    if i == s.len() {
        assert(s.take(i) =~= s);
    } else {
        lemma_digits_grow(s, i + 1);
        assert(s.take(i + 1).drop_last() =~= s.take(i));
    }
}

/// Reads a number in decimal.
pub fn parse_number(s: &[char]) -> (n: Option<u64>)
    ensures
        n == number(s@),
{
    let digits: &[char] = if s.len() > 0 && s[0] == '+' {
        slice_subrange(s, 1, s.len())
    } else {
        s
    };
    assert(digits@ =~= unsigned_part(s@));
    if digits.len() == 0 {
        return None;
    }
    let mut value: u64 = 0;
    let mut i: usize = 0;
    while i < digits.len()
        invariant
            digits@ == unsigned_part(s@),
            i <= digits@.len(),
            forall|j: int| 0 <= j < i ==> is_digit(#[trigger] digits@[j]),
            value == digits_value(digits@.take(i as int)),
        decreases digits@.len() - i,
    {
        let c = digits[i];
        if !('0' <= c && c <= '9') {
            return None;
        }
        let d: u64 = (c as u8 - ZERO) as u64;
        proof {
            assert(digits@.take(i + 1).drop_last() =~= digits@.take(i as int));
            lemma_digits_grow(digits@, i + 1);
        }
        if value > (u64::MAX - d) / 10 {
            return None;
        }
        value = value * 10 + d;
        i += 1;
    }
    assert(digits@.take(digits@.len() as int) =~= digits@);
    Some(value)
}

/// `drop_trailing` leaves a beginning of `s` that does not end with the class.
pub proof fn lemma_drop_trailing(s: Seq<char>, f: spec_fn(char) -> bool)
    ensures
        drop_trailing(s, f).len() <= s.len(),
        drop_trailing(s, f) == s.take(drop_trailing(s, f).len() as int),
        drop_trailing(s, f).len() > 0 ==> !f(drop_trailing(s, f).last()),
        forall|i: int| drop_trailing(s, f).len() <= i < s.len() ==> f(s[i]),
    decreases s.len(),
{
    if s.len() > 0 && f(s.last()) {
        let rest = s.drop_last();
        lemma_drop_trailing(rest, f);
        assert(rest.take(drop_trailing(rest, f).len() as int) =~= s.take(
            drop_trailing(rest, f).len() as int,
        ));
        assert forall|i: int| drop_trailing(s, f).len() <= i < s.len() implies f(s[i]) by {
            if i < s.len() - 1 {
                assert(rest[i] == s[i]);
            }
        }
    } else {
        assert(s.take(s.len() as int) =~= s);
    }
}

/// Characters of the class in front of a text go with its leading ones.
pub proof fn lemma_skip_prefix(a: Seq<char>, b: Seq<char>, f: spec_fn(char) -> bool)
    requires
        forall|i: int| 0 <= i < a.len() ==> f(a[i]),
    ensures
        skip_while(a + b, f) == skip_while(b, f),
    decreases a.len(),
{
    if a.len() == 0 {
        assert(a + b =~= b);
    } else {
        assert((a + b).drop_first() =~= a.drop_first() + b);
        lemma_skip_prefix(a.drop_first(), b, f);
    }
}

/// What follows a text has no part in its leading characters, as long as there are others.
pub proof fn lemma_skip_append(a: Seq<char>, b: Seq<char>, f: spec_fn(char) -> bool)
    requires
        skip_while(a, f).len() > 0,
    ensures
        skip_while(a + b, f) == skip_while(a, f) + b,
    decreases a.len(),
{
    if f(a[0]) {
        assert((a + b).drop_first() =~= a.drop_first() + b);
        lemma_skip_append(a.drop_first(), b, f);
    }
}

/// Characters of the class behind a text go with its trailing ones.
pub proof fn lemma_drop_suffix(a: Seq<char>, b: Seq<char>, f: spec_fn(char) -> bool)
    requires
        forall|i: int| 0 <= i < b.len() ==> f(b[i]),
    ensures
        drop_trailing(a + b, f) == drop_trailing(a, f),
    decreases b.len(),
{
    if b.len() == 0 {
        assert(a + b =~= a);
    } else {
        assert((a + b).drop_last() =~= a + b.drop_last());
        assert((a + b).last() == b[b.len() - 1]);
        lemma_drop_suffix(a, b.drop_last(), f);
    }
}

/// What precedes a text has no part in its trailing characters, as long as there are others.
pub proof fn lemma_drop_prepend(a: Seq<char>, b: Seq<char>, f: spec_fn(char) -> bool)
    requires
        drop_trailing(b, f).len() > 0,
    ensures
        drop_trailing(a + b, f) == a + drop_trailing(b, f),
    decreases b.len(),
{
    assert((a + b).last() == b.last());
    if f(b.last()) {
        assert((a + b).drop_last() =~= a + b.drop_last());
        lemma_drop_prepend(a, b.drop_last(), f);
    }
}

/// Trimming leaves no white space at either end, and nothing more to trim.
pub proof fn law_trimming_is_thorough(s: Seq<char>)
    ensures
        trimmed(s).len() > 0 ==> !is_white(trimmed(s)[0]) && !is_white(trimmed(s).last()),
        trimmed(trimmed(s)) == trimmed(s),
{
    let rest = skip_while(s, white());
    lemma_skip_while(s, white());
    lemma_drop_trailing(rest, white());
    let t = trimmed(s);
    if t.len() > 0 {
        assert(t[0] == rest[0]);
        assert(skip_while(t, white()) == t);
        assert(drop_trailing(t, white()) == t);
    }
}

/// White space around a text makes no difference to what is left when it is trimmed.
pub proof fn law_trimming_ignores_white_space(a: Seq<char>, s: Seq<char>, b: Seq<char>)
    requires
        forall|i: int| 0 <= i < a.len() ==> is_white(a[i]),
        forall|i: int| 0 <= i < b.len() ==> is_white(b[i]),
    ensures
        trimmed(a + s + b) == trimmed(s),
{
    assert(a + s + b =~= a + (s + b));
    lemma_skip_prefix(a, s + b, white());
    if skip_while(s, white()).len() > 0 {
        lemma_skip_append(s, b, white());
        lemma_drop_suffix(skip_while(s, white()), b, white());
    } else {
        lemma_skip_while(s, white());
        lemma_skip_prefix(s, b, white());
        lemma_skip_prefix(b, Seq::empty(), white());
        assert(b + Seq::empty() =~= b);
        assert(skip_while(b, white()) =~= Seq::empty());
        assert(skip_while(s, white()) =~= Seq::empty());
    }
}

/// The digits of a number are digits, and write that number.
pub proof fn lemma_decimal(n: nat)
    ensures
        decimal(n).len() > 0,
        forall|i: int| 0 <= i < decimal(n).len() ==> is_digit(#[trigger] decimal(n)[i]),
        digits_value(decimal(n)) == n,
    decreases n,
{
    if n < 10 {
        assert(decimal(n).drop_last() =~= Seq::empty());
        assert(digits_value(decimal(n).drop_last()) == 0);
    } else {
        lemma_decimal(n / 10);
        let s = decimal(n);
        assert(s.drop_last() =~= decimal(n / 10));
        assert forall|i: int| 0 <= i < s.len() implies is_digit(#[trigger] s[i]) by {
            if i < s.len() - 1 {
                assert(s[i] == decimal(n / 10)[i]);
            }
        }
    }
}

/// A number that is written in decimal reads as that number.
pub proof fn law_numbers_read_back(n: u64)
    ensures
        number(decimal(n as nat)) == Some(n),
{
    lemma_decimal(n as nat);
    assert(is_digit(decimal(n as nat)[0]));
}

/// A text without the separator is its own only part.
pub proof fn lemma_split_one(s: Seq<char>, c: char)
    requires
        forall|i: int| 0 <= i < s.len() ==> s[i] != c,
    ensures
        split(s, c) == seq![s],
        before(s, c) == s,
{
    lemma_find(s, c, s.len() as int);
    assert(s.take(s.len() as int) =~= s);
}

/// The parts of two texts put together: the last of the one and the first of the other grow into
/// one.
pub proof fn lemma_split_join(a: Seq<char>, b: Seq<char>, c: char)
    ensures
        split(a, c).len() > 0,
        split(b, c).len() > 0,
        split(a + b, c) == split(a, c).drop_last() + seq![split(a, c).last() + split(b, c)[0]]
            + split(b, c).drop_first(),
    decreases a.len(),
{
    let k = find(a, c);
    lemma_find(a, c, k);
    lemma_find(b, c, 0);
    let ab = a + b;
    if k < a.len() {
        let rest = a.skip(k + 1);
        lemma_split_join(rest, b, c);
        assert forall|j: int| 0 <= j < k implies ab[j] != c by {
            assert(ab[j] == a[j]);
        }
        assert(ab[k] == a[k]);
        lemma_find(ab, c, k);
        assert(ab.take(k) =~= a.take(k));
        assert(ab.skip(k + 1) =~= rest + b);
        assert(split(a, c) == seq![a.take(k)] + split(rest, c));
        assert(split(ab, c) == seq![a.take(k)] + split(rest + b, c));
        assert(split(a, c).last() == split(rest, c).last());
        assert(split(a, c).drop_last() =~= seq![a.take(k)] + split(rest, c).drop_last());
        assert(split(ab, c) =~= split(a, c).drop_last() + seq![
            split(a, c).last() + split(b, c)[0],
        ] + split(b, c).drop_first());
    } else {
        let m = find(b, c);
        assert forall|j: int| 0 <= j < a.len() + m implies ab[j] != c by {
            if j < a.len() {
                assert(ab[j] == a[j]);
            } else {
                assert(ab[j] == b[j - a.len()]);
            }
        }
        if m < b.len() {
            assert(ab[a.len() + m] == b[m]);
        }
        lemma_find(ab, c, a.len() + m);
        assert(split(a, c) == seq![a]);
        if m < b.len() {
            assert(ab.take(a.len() + m) =~= a + b.take(m));
            assert(ab.skip(a.len() + m + 1) =~= b.skip(m + 1));
            assert(split(b, c).drop_first() =~= split(b.skip(m + 1), c));
        } else {
            assert(split(b, c).drop_first() =~= Seq::empty());
        }
        assert(split(ab, c) =~= split(a, c).drop_last() + seq![a + split(b, c)[0]] + split(
            b,
            c,
        ).drop_first());
    }
}

/// A text that does not hold `%s` has no rest that does.
proof fn lemma_no_place_in_rest(s: Seq<char>)
    requires
        s.len() > 0,
        !holds(s, "%s"@),
    ensures
        !holds(s.skip(1), "%s"@),
        !(s.len() >= 2 && s[0] == '%' && s[1] == 's'),
{
    reveal_strlit("%s");
    let rest = s.skip(1);
    if holds(rest, "%s"@) {
        let i = choose|i: int| occurs_at(rest, "%s"@, i);
        assert(s.subrange(i + 1, i + 3) =~= rest.subrange(i, i + 2));
        assert(occurs_at(s, "%s"@, i + 1));
    }
    if s.len() >= 2 && s[0] == '%' && s[1] == 's' {
        assert(s.subrange(0, 2) =~= "%s"@);
        assert(occurs_at(s, "%s"@, 0));
    }
}

/// The first `%s` of a template gives way to the value, and what stands before it is kept.
pub proof fn law_first_place_is_filled(head: Seq<char>, tail: Seq<char>, value: Seq<char>)
    requires
        !holds(head, "%s"@),
    ensures
        filled(head + "%s"@ + tail, value) == head + value + filled(tail, value),
    decreases head.len(),
{
    reveal_strlit("%s");
    let s = head + "%s"@ + tail;
    if head.len() == 0 {
        assert(s.skip(2) =~= tail);
        assert(value + filled(tail, value) =~= head + value + filled(tail, value));
    } else {
        lemma_no_place_in_rest(head);
        law_first_place_is_filled(head.skip(1), tail, value);
        assert(s[0] == head[0]);
        assert(head.len() >= 2 ==> s[1] == head[1]);
        assert(s.skip(1) =~= head.skip(1) + "%s"@ + tail);
        assert(seq![head[0]] + (head.skip(1) + value + filled(tail, value)) =~= head + value
            + filled(tail, value));
    }
}

/// A template that does not hold `%s` stays as it is.
pub proof fn law_nothing_to_fill(template: Seq<char>, value: Seq<char>)
    requires
        !holds(template, "%s"@),
    ensures
        filled(template, value) == template,
    decreases template.len(),
{
    if template.len() > 0 {
        lemma_no_place_in_rest(template);
        law_nothing_to_fill(template.skip(1), value);
        assert(seq![template[0]] + template.skip(1) =~= template);
    }
}

/// What follows the last separator holds none, and is where the text ends.
pub proof fn lemma_after_last(s: Seq<char>, c: char)
    ensures
        forall|i: int| 0 <= i < after_last(s, c).len() ==> after_last(s, c)[i] != c,
        after_last(s, c).len() <= s.len(),
        after_last(s, c) == s.skip(s.len() - after_last(s, c).len()),
        after_last(s, c).len() < s.len() ==> s[s.len() - after_last(s, c).len() - 1] == c,
    decreases s.len(),
{
    if s.len() > 0 && s.last() != c {
        let rest = s.drop_last();
        lemma_after_last(rest, c);
        let tail = after_last(rest, c);
        assert(tail.push(s.last()) =~= s.skip(s.len() - tail.len() - 1));
    }
}

/// Whether a text is white space throughout.
pub open spec fn all_white(s: Seq<char>) -> bool {
    forall|i: int| 0 <= i < s.len() ==> is_white(#[trigger] s[i])
}

/// Whether a text does not hold a character.
pub open spec fn free_of(s: Seq<char>, c: char) -> bool {
    forall|i: int| 0 <= i < s.len() ==> #[trigger] s[i] != c
}

/// Trimming takes white space from the two ends and nothing else: what stands between is left as it
/// is, and every text is what is left of it with white space around.
pub proof fn law_trimming_takes_only_white_space(a: Seq<char>, s: Seq<char>, b: Seq<char>)
    requires
        all_white(a),
        all_white(b),
        s.len() > 0 ==> !is_white(s[0]) && !is_white(s.last()),
    ensures
        trimmed(a + s + b) == s,
{
    law_trimming_ignores_white_space(a, s, b);
    if s.len() == 0 {
        assert(skip_while(s, white()) == s);
        assert(trimmed(s) == s);
    } else {
        assert(skip_while(s, white()) == s);
        assert(drop_trailing(s, white()) == s);
    }
}

/// Every text is what trimming leaves of it, with white space around.
pub proof fn law_trimming_leaves_the_middle(s: Seq<char>)
    ensures
        exists|a: Seq<char>, b: Seq<char>|
            all_white(a) && all_white(b) && s == #[trigger] (a + trimmed(s) + b),
{
    let rest = skip_while(s, white());
    let t = trimmed(s);
    lemma_skip_while(s, white());
    lemma_drop_trailing(rest, white());
    let a = s.take(s.len() - rest.len());
    let b = rest.skip(t.len() as int);
    assert(rest =~= t + b);
    assert(s =~= a + rest);
    assert(s =~= a + t + b);
    assert(all_white(b)) by {
        assert forall|i: int| 0 <= i < b.len() implies is_white(#[trigger] b[i]) by {
            assert(white()(rest[t.len() + i]));
        }
    }
    assert(all_white(a)) by {
        assert forall|i: int| 0 <= i < a.len() implies is_white(#[trigger] a[i]) by {
            assert(white()(s[i]));
        }
    }
}

/// Putting a text in front of a list puts it, and the separator, in front of what is joined.
proof fn lemma_joined_front(t: Seq<char>, list: Seq<Seq<char>>, sep: Seq<char>)
    requires
        list.len() > 0,
    ensures
        joined(seq![t] + list, sep) == t + sep + joined(list, sep),
    decreases list.len(),
{
    let all = seq![t] + list;
    assert(all.drop_last() =~= seq![t] + list.drop_last());
    assert(all.last() == list.last());
    if list.len() == 1 {
        assert(all.drop_last() =~= seq![t]);
        assert(joined(seq![t], sep) == t);
        assert(joined(list, sep) == list[0]);
    } else {
        lemma_joined_front(t, list.drop_last(), sep);
        assert(joined(all, sep) =~= t + sep + joined(list, sep));
    }
}

/// Joining loses nothing: one more text comes behind all the others, after the separator; a single
/// text stays as it is, and nothing comes to nothing.
pub proof fn law_joining_loses_nothing(list: Seq<Seq<char>>, t: Seq<char>, sep: Seq<char>)
    ensures
        joined(Seq::empty(), sep) == Seq::<char>::empty(),
        joined(seq![t], sep) == t,
        list.len() > 0 ==> joined(list.push(t), sep) == joined(list, sep) + sep + t,
        list.len() > 0 ==> joined(seq![t] + list, sep) == t + sep + joined(list, sep),
{
    assert(list.push(t).drop_last() =~= list);
    if list.len() > 0 {
        lemma_joined_front(t, list, sep);
    }
}

/// A text in front of a separator is the first part, and the parts of what follows are the rest.
pub proof fn law_parts_end_at_separators(part: Seq<char>, rest: Seq<char>, c: char)
    requires
        free_of(part, c),
    ensures
        split(part, c) == seq![part],
        split(part + seq![c] + rest, c) == seq![part] + split(rest, c),
        before(part, c) == part,
        before(part + seq![c] + rest, c) == part,
{
    let whole = part + seq![c] + rest;
    let k = part.len() as int;
    lemma_split_one(part, c);
    assert forall|j: int| 0 <= j < k implies whole[j] != c by {
        assert(whole[j] == part[j]);
    }
    assert(whole[k] == c);
    lemma_find(whole, c, k);
    assert(whole.take(k) =~= part);
    assert(whole.skip(k + 1) =~= rest);
}

/// The parts of a text, joined by the separator, are the text again, and none of them holds it.
pub proof fn law_parts_join_back(s: Seq<char>, c: char)
    ensures
        split(s, c).len() > 0,
        joined(split(s, c), seq![c]) == s,
        forall|i: int| 0 <= i < split(s, c).len() ==> free_of(#[trigger] split(s, c)[i], c),
    decreases s.len(),
{
    let k = find(s, c);
    lemma_find(s, c, k);
    if k >= s.len() {
        assert(split(s, c) == seq![s]);
        assert(joined(seq![s], seq![c]) == s);
    } else {
        let rest = s.skip(k + 1);
        let head = s.take(k);
        law_parts_join_back(rest, c);
        lemma_joined_front(head, split(rest, c), seq![c]);
        assert(head + seq![c] + rest =~= s);
        assert forall|i: int| 0 <= i < split(s, c).len() implies free_of(
            #[trigger] split(s, c)[i],
            c,
        ) by {
            if i > 0 {
                assert(split(s, c)[i] == split(rest, c)[i - 1]);
            } else {
                assert(split(s, c)[0] == head);
                assert forall|j: int| 0 <= j < head.len() implies #[trigger] head[j] != c by {
                    assert(head[j] == s[j]);
                }
            }
        }
    }
}

/// Texts that do not hold the separator are the parts of what they are joined to, all of them and in
/// their order.
pub proof fn law_joined_texts_come_apart(list: Seq<Seq<char>>, c: char)
    requires
        list.len() > 0,
        forall|i: int| 0 <= i < list.len() ==> free_of(#[trigger] list[i], c),
    ensures
        split(joined(list, seq![c]), c) == list,
    decreases list.len(),
{
    let first = list[0];
    assert(free_of(list[0], c));
    if list.len() == 1 {
        law_parts_end_at_separators(first, Seq::empty(), c);
        assert(list =~= seq![first]);
    } else {
        let rest = list.skip(1);
        assert forall|i: int| 0 <= i < rest.len() implies free_of(#[trigger] rest[i], c) by {
            assert(rest[i] == list[i + 1]);
        }
        law_joined_texts_come_apart(rest, c);
        assert(list =~= seq![first] + rest);
        lemma_joined_front(first, rest, seq![c]);
        law_parts_end_at_separators(first, joined(rest, seq![c]), c);
    }
}

/// A line ends at a line feed, and a carriage return before that belongs to the line ending. What
/// follows the last line feed is a line too, unless it is empty.
pub proof fn law_lines_end_at_line_feeds(line: Seq<char>, rest: Seq<char>)
    requires
        free_of(line, '\n'),
    ensures
        lines(Seq::empty()) == Seq::<Seq<char>>::empty(),
        line.len() > 0 ==> lines(line) == seq![line],
        lines(line + seq!['\r', '\n'] + rest) == seq![line] + lines(rest),
        line.len() == 0 || line.last() != '\r' ==> lines(line + seq!['\n'] + rest) == seq![line]
            + lines(rest),
{
    let plain = line + seq!['\n'] + rest;
    let k = line.len() as int;
    lemma_find(line, '\n', k);
    assert forall|j: int| 0 <= j < k implies plain[j] != '\n' by {
        assert(plain[j] == line[j]);
    }
    assert(plain[k] == '\n');
    lemma_find(plain, '\n', k);
    assert(plain.take(k) =~= line);
    assert(plain.skip(k + 1) =~= rest);
    let long = line + seq!['\r', '\n'] + rest;
    assert forall|j: int| 0 <= j < k + 1 implies long[j] != '\n' by {
        if j < k {
            assert(long[j] == line[j]);
        }
    }
    assert(long[k + 1] == '\n');
    lemma_find(long, '\n', k + 1);
    assert(long.take(k + 1) =~= line.push('\r'));
    assert(line.push('\r').drop_last() =~= line);
    assert(long.skip(k + 2) =~= rest);
}

/// No line holds a line feed.
pub proof fn law_lines_hold_no_line_feeds(s: Seq<char>)
    ensures
        forall|i: int| 0 <= i < lines(s).len() ==> free_of(#[trigger] lines(s)[i], '\n'),
    decreases s.len(),
{
    let k = find(s, '\n');
    lemma_find(s, '\n', k);
    if s.len() == 0 {
    } else if k >= s.len() {
        assert(lines(s) == seq![s]);
    } else {
        let rest = s.skip(k + 1);
        let head = strip_return(s.take(k));
        law_lines_hold_no_line_feeds(rest);
        assert forall|i: int| 0 <= i < lines(s).len() implies free_of(
            #[trigger] lines(s)[i],
            '\n',
        ) by {
            if i > 0 {
                assert(lines(s)[i] == lines(rest)[i - 1]);
            } else {
                assert(lines(s)[0] == head);
                assert forall|j: int| 0 <= j < head.len() implies #[trigger] head[j] != '\n' by {
                    assert(head[j] == s[j]);
                }
            }
        }
    }
}

/// A word is a stretch without white space, from one white space or end of the text to the next.
pub proof fn law_words_are_set_apart(margin: Seq<char>, word: Seq<char>, rest: Seq<char>)
    requires
        all_white(margin),
        word.len() > 0,
        forall|i: int| 0 <= i < word.len() ==> !is_white(#[trigger] word[i]),
        rest.len() == 0 || is_white(rest[0]),
    ensures
        words(margin) == Seq::<Seq<char>>::empty(),
        words(margin + word + rest) == seq![word] + words(rest),
{
    let s = margin + word + rest;
    let tail = word + rest;
    assert(s =~= margin + tail);
    lemma_skip_prefix(margin, tail, white());
    assert(tail[0] == word[0]);
    assert(skip_while(tail, white()) == tail);
    let k = word.len() as int;
    assert forall|j: int| 0 <= j < k implies !is_white(tail[j]) by {
        assert(tail[j] == word[j]);
    }
    assert(k < tail.len() ==> tail[k] == rest[0]);
    lemma_word_len(tail, k);
    assert(tail.take(k) =~= word);
    assert(tail.skip(k) =~= rest);
    lemma_skip_prefix(margin, Seq::empty(), white());
    assert(margin + Seq::<char>::empty() =~= margin);
    assert(skip_while(Seq::<char>::empty(), white()).len() == 0);
}

/// To hold a text is to be that text with something before and behind it, and to begin or to end
/// with it is to be it with something behind or before.
pub proof fn law_finding_means_being_part(hay: Seq<char>, needle: Seq<char>)
    ensures
        holds(hay, needle) <==> exists|a: Seq<char>, b: Seq<char>|
            hay == #[trigger] (a + needle + b),
        begins(hay, needle) <==> exists|b: Seq<char>| hay == #[trigger] (needle + b),
        ends(hay, needle) <==> exists|a: Seq<char>| hay == #[trigger] (a + needle),
{
    if holds(hay, needle) {
        let i = choose|i: int| occurs_at(hay, needle, i);
        assert(hay =~= hay.take(i) + needle + hay.skip(i + needle.len()));
    }
    if exists|a: Seq<char>, b: Seq<char>| hay == #[trigger] (a + needle + b) {
        let (a, b) = choose|a: Seq<char>, b: Seq<char>| hay == #[trigger] (a + needle + b);
        assert(hay.subrange(a.len() as int, (a.len() + needle.len()) as int) =~= needle);
        assert(occurs_at(hay, needle, a.len() as int));
    }
    if begins(hay, needle) {
        assert(hay =~= needle + hay.skip(needle.len() as int));
    }
    if exists|b: Seq<char>| hay == #[trigger] (needle + b) {
        assert(hay.subrange(0, needle.len() as int) =~= needle);
    }
    if ends(hay, needle) {
        assert(hay =~= hay.take(hay.len() - needle.len()) + needle);
    }
    if exists|a: Seq<char>| hay == #[trigger] (a + needle) {
        let a = choose|a: Seq<char>| hay == #[trigger] (a + needle);
        assert(hay.subrange(a.len() as int, hay.len() as int) =~= needle);
    }
}

/// Two characters are the same but for their case when they are the same, or are the capital and
/// the small form of one ASCII letter. Two texts are when they are of one length and their
/// characters are, one by one.
pub proof fn law_case_is_that_of_ascii_letters(a: Seq<char>, b: Seq<char>, x: char, y: char)
    ensures
        same_ignoring_case(seq![x], seq![y]) <==> x == y || ('A' <= x <= 'Z' && y as u32 == x as u32
            + 32) || ('A' <= y <= 'Z' && x as u32 == y as u32 + 32),
        same_ignoring_case(a.push(x), b.push(y)) <==> same_ignoring_case(a, b)
            && same_ignoring_case(seq![x], seq![y]),
        same_ignoring_case(a, b) ==> a.len() == b.len() && same_ignoring_case(b, a),
        same_ignoring_case(a, a),
{
    assert(seq![x][0] == x && seq![y][0] == y);
    assert(same_ignoring_case(seq![x], seq![y]) <==> ascii_lower(x) == ascii_lower(y));
    let ax = a.push(x);
    let by = b.push(y);
    if same_ignoring_case(ax, by) {
        assert forall|i: int| 0 <= i < a.len() implies ascii_lower(#[trigger] a[i]) == ascii_lower(
            b[i],
        ) by {
            assert(ascii_lower(ax[i]) == ascii_lower(by[i]));
        }
        assert(ascii_lower(ax[a.len() as int]) == ascii_lower(by[a.len() as int]));
    }
    if same_ignoring_case(a, b) && same_ignoring_case(seq![x], seq![y]) {
        assert forall|i: int| 0 <= i < ax.len() implies ascii_lower(#[trigger] ax[i])
            == ascii_lower(by[i]) by {
            if i < a.len() {
                assert(ascii_lower(a[i]) == ascii_lower(b[i]));
            }
        }
    }
    if same_ignoring_case(a, b) {
        assert forall|i: int| 0 <= i < b.len() implies ascii_lower(#[trigger] b[i]) == ascii_lower(
            a[i],
        ) by {
            assert(ascii_lower(a[i]) == ascii_lower(b[i]));
        }
    }
}

/// Replacing goes character by character: the one that is looked for gives way, every other stays,
/// and what becomes of a text is what becomes of its pieces, put together.
pub proof fn law_replacing_goes_by_characters(
    a: Seq<char>,
    b: Seq<char>,
    c: char,
    with: Seq<char>,
    d: char,
)
    ensures
        replaced(Seq::empty(), c, with) == Seq::<char>::empty(),
        replaced(seq![c], c, with) == with,
        d != c ==> replaced(seq![d], c, with) == seq![d],
        replaced(a + b, c, with) == replaced(a, c, with) + replaced(b, c, with),
    decreases b.len(),
{
    assert(seq![c].drop_last() =~= Seq::empty());
    assert(seq![d].drop_last() =~= Seq::empty());
    assert(replaced(Seq::<char>::empty(), c, with) == Seq::<char>::empty());
    assert(replaced(seq![c], c, with) =~= with);
    if d != c {
        assert(replaced(seq![d], c, with) =~= seq![d]);
    }
    if b.len() == 0 {
        assert(a + b =~= a);
        assert(replaced(a, c, with) + replaced(b, c, with) =~= replaced(a, c, with));
    } else {
        law_replacing_goes_by_characters(a, b.drop_last(), c, with, d);
        assert((a + b).drop_last() =~= a + b.drop_last());
        assert((a + b).last() == b.last());
        assert(replaced(a + b, c, with) =~= replaced(a, c, with) + replaced(b, c, with));
    }
}

/// A number below ten is written by its digit, and a larger one by what its tens are written by and
/// the digit of its ones. No number but zero begins with a zero.
pub proof fn law_numbers_are_written_in_tens(tens: nat, ones: nat)
    requires
        ones < 10,
    ensures
        decimal(ones).len() == 1,
        decimal(ones)[0] as u32 == 48 + ones,
        tens > 0 ==> decimal(10 * tens + ones) == decimal(tens) + decimal(ones),
        tens > 0 ==> decimal(tens)[0] != '0',
    decreases tens,
{
    if tens > 0 {
        let n = (10 * tens + ones) as nat;
        assert(n / 10 == tens && n % 10 == ones);
        assert(decimal(n) =~= decimal(tens) + decimal(ones));
        if tens >= 10 {
            law_numbers_are_written_in_tens(tens / 10, tens % 10);
            lemma_decimal(tens / 10);
            assert(tens == 10 * (tens / 10) + tens % 10);
            assert(decimal(tens)[0] == decimal(tens / 10)[0]);
        }
    }
}

/// A stretch of zeros.
pub open spec fn zeros(k: nat) -> Seq<char> {
    Seq::new(k, |i: int| '0')
}

proof fn lemma_leading_zeros(k: nat, s: Seq<char>)
    ensures
        digits_value(zeros(k) + s) == digits_value(s),
    decreases s.len(), k,
{
    let all = zeros(k) + s;
    if s.len() > 0 {
        assert(all.drop_last() =~= zeros(k) + s.drop_last());
        assert(all.last() == s.last());
        lemma_leading_zeros(k, s.drop_last());
    } else if k > 0 {
        assert(all.drop_last() =~= zeros((k - 1) as nat) + s);
        lemma_leading_zeros((k - 1) as nat, s);
        assert(all.last() == '0');
    } else {
        assert(all =~= s);
    }
}

proof fn lemma_digits_are_decimal(s: Seq<char>)
    requires
        s.len() > 0,
        forall|i: int| 0 <= i < s.len() ==> is_digit(#[trigger] s[i]),
    ensures
        exists|k: nat| s == #[trigger] zeros(k) + decimal(digits_value(s)),
    decreases s.len(),
{
    let init = s.drop_last();
    let c = s.last();
    assert(is_digit(s[s.len() - 1]));
    let d = (c as nat - '0' as nat) as nat;
    assert(decimal(d) =~= seq![c]);
    if init.len() == 0 {
        assert(digits_value(init) == 0);
        assert(s =~= zeros(0) + decimal(digits_value(s)));
    } else {
        assert forall|i: int| 0 <= i < init.len() implies is_digit(#[trigger] init[i]) by {
            assert(init[i] == s[i]);
        }
        lemma_digits_are_decimal(init);
        let v = digits_value(init);
        let k = choose|k: nat| init == #[trigger] zeros(k) + decimal(v);
        assert(digits_value(s) == 10 * v + d);
        assert(s =~= init + seq![c]);
        if v == 0 {
            assert(decimal(0) =~= seq!['0']);
            assert(init =~= zeros(k + 1));
            assert(decimal(digits_value(s)) == seq![c]);
            assert(s == zeros(k + 1) + decimal(digits_value(s)));
        } else {
            law_numbers_are_written_in_tens(v, d);
            assert(decimal(digits_value(s)) == decimal(v) + seq![c]);
            assert(zeros(k) + decimal(v) + seq![c] =~= zeros(k) + (decimal(v) + seq![c]));
            assert(s == zeros(k) + decimal(digits_value(s)));
        }
    }
}

/// What reads as a number is that number written in decimal, after zeros and a plus sign if need
/// be, and nothing else does; a number that does not fit in sixty-four bits does not read.
pub proof fn law_what_reads_as_a_number(s: Seq<char>, k: nat, n: nat)
    ensures
        number(zeros(k) + decimal(n)) == (if n <= u64::MAX {
            Some(n as u64)
        } else {
            None
        }),
        number(seq!['+'] + zeros(k) + decimal(n)) == number(zeros(k) + decimal(n)),
        number(s) matches Some(m) ==> exists|z: nat|
            #![trigger zeros(z)]
            s == zeros(z) + decimal(m as nat) || s == seq!['+'] + zeros(z) + decimal(m as nat),
{
    let plain = zeros(k) + decimal(n);
    let signed = seq!['+'] + zeros(k) + decimal(n);
    lemma_decimal(n);
    lemma_leading_zeros(k, decimal(n));
    assert forall|i: int| 0 <= i < plain.len() implies is_digit(#[trigger] plain[i]) by {
        if i >= k {
            assert(plain[i] == decimal(n)[i - k]);
        }
    }
    assert(is_digit(plain[0]));
    assert(unsigned_part(plain) == plain);
    assert(unsigned_part(signed) =~= plain);
    if number(s) is Some {
        let digits = unsigned_part(s);
        lemma_digits_are_decimal(digits);
        let z = choose|z: nat| digits == #[trigger] zeros(z) + decimal(digits_value(digits));
        if s[0] == '+' {
            assert(s =~= seq!['+'] + digits);
            assert(s =~= seq!['+'] + zeros(z) + decimal(digits_value(digits)));
        }
    }
}

/// Four texts, joined.
pub proof fn lemma_joined_four(
    a: Seq<char>,
    b: Seq<char>,
    c: Seq<char>,
    d: Seq<char>,
    sep: Seq<char>,
)
    ensures
        joined(seq![a, b, c, d], sep) == a + sep + b + sep + c + sep + d,
{
    law_joining_loses_nothing(seq![a], b, sep);
    law_joining_loses_nothing(seq![a, b], c, sep);
    law_joining_loses_nothing(seq![a, b, c], d, sep);
    assert(seq![a].push(b) =~= seq![a, b]);
    assert(seq![a, b].push(c) =~= seq![a, b, c]);
    assert(seq![a, b, c].push(d) =~= seq![a, b, c, d]);
    assert(joined(seq![a], sep) == a);
}

/// A text holds what it is put together from.
pub proof fn lemma_holds_middle(a: Seq<char>, needle: Seq<char>, b: Seq<char>)
    ensures
        holds(a + needle + b, needle),
{
    let hay = a + needle + b;
    let k = a.len() as int;
    assert(hay.subrange(k, k + needle.len()) =~= needle);
    assert(occurs_at(hay, needle, k));
}

/// The texts of a list of slices are those of the slices, one by one, and an optional string is its
/// text.
pub proof fn law_texts_are_those_of_the_slices(list: Seq<&[char]>, more: &[char], s: String)
    ensures
        pieces(Seq::empty()) == Seq::<Seq<char>>::empty(),
        pieces(list.push(more)) == pieces(list).push(more@),
        optional(Some(s)) == Some(s@),
        optional(None) is None,
{
    assert(pieces(list.push(more)) =~= pieces(list).push(more@));
}

/// What follows the last separator is all that follows it; without one, it is the whole text.
pub proof fn law_the_last_part_follows_the_last_separator(
    head: Seq<char>,
    name: Seq<char>,
    c: char,
)
    requires
        free_of(name, c),
    ensures
        after_last(name, c) == name,
        after_last(head + seq![c] + name, c) == name,
    decreases name.len(),
{
    let whole = head + seq![c] + name;
    if name.len() == 0 {
        assert(whole.last() == c);
        assert(after_last(whole, c) =~= name);
        assert(after_last(name, c) =~= name);
    } else {
        let init = name.drop_last();
        assert forall|i: int| 0 <= i < init.len() implies #[trigger] init[i] != c by {
            assert(init[i] == name[i]);
        }
        law_the_last_part_follows_the_last_separator(head, init, c);
        assert(name[name.len() - 1] != c);
        assert(whole.drop_last() =~= head + seq![c] + init);
        assert(whole.last() == name.last());
        assert(after_last(whole, c) =~= name);
        assert(after_last(name, c) =~= name);
    }
}

/// The white space of a text is these characters and no others: the tabulators, line breaks, page
/// break and space of ASCII, the next line, and the spaces and separators of other scripts.
pub proof fn law_what_is_white_space(c: char)
    ensures
        is_white(c) <==> seq![
            '\t',
            '\n',
            '\u{b}',
            '\u{c}',
            '\r',
            ' ',
            '\u{85}',
            '\u{a0}',
            '\u{1680}',
            '\u{2000}',
            '\u{2001}',
            '\u{2002}',
            '\u{2003}',
            '\u{2004}',
            '\u{2005}',
            '\u{2006}',
            '\u{2007}',
            '\u{2008}',
            '\u{2009}',
            '\u{200a}',
            '\u{2028}',
            '\u{2029}',
            '\u{202f}',
            '\u{205f}',
            '\u{3000}',
        ].contains(c),
{
    let all = seq![
        '\t',
        '\n',
        '\u{b}',
        '\u{c}',
        '\r',
        ' ',
        '\u{85}',
        '\u{a0}',
        '\u{1680}',
        '\u{2000}',
        '\u{2001}',
        '\u{2002}',
        '\u{2003}',
        '\u{2004}',
        '\u{2005}',
        '\u{2006}',
        '\u{2007}',
        '\u{2008}',
        '\u{2009}',
        '\u{200a}',
        '\u{2028}',
        '\u{2029}',
        '\u{202f}',
        '\u{205f}',
        '\u{3000}',
    ];
    let n = c as u32;
    if 0x09 <= n <= 0x0d {
        assert(all[n - 0x09] == c);
    } else if n == 0x20 {
        assert(all[5] == c);
    } else if n == 0x85 {
        assert(all[6] == c);
    } else if n == 0xa0 {
        assert(all[7] == c);
    } else if n == 0x1680 {
        assert(all[8] == c);
    } else if 0x2000 <= n <= 0x200a {
        assert(all[9 + (n - 0x2000)] == c);
    } else if 0x2028 <= n <= 0x2029 {
        assert(all[20 + (n - 0x2028)] == c);
    } else if n == 0x202f {
        assert(all[22] == c);
    } else if n == 0x205f {
        assert(all[23] == c);
    } else if n == 0x3000 {
        assert(all[24] == c);
    } else {
        assert(forall|i: int| 0 <= i < 25 ==> is_white(#[trigger] all[i]));
    }
}

} // verus!
