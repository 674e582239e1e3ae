//! Version numbers.

use vstd::prelude::*;

use crate::text::{
    after_leading, before, cut_before, decimal, drop_trailing, find, free_of, is_digit, is_white,
    law_numbers_read_back, law_parts_end_at_separators, law_trimming_ignores_white_space,
    lemma_decimal, lemma_drop_prepend, lemma_drop_suffix, lemma_drop_trailing, lemma_find,
    lemma_skip_append, lemma_skip_prefix, lemma_skip_while, lemma_split_join, lemma_split_one,
    number, parse_number, pieces, skip_while, split, split_at_char, to_chars, trim, trimmed,
    unsigned_part, white,
};

verus! {

/// The letters that may lead a version, as a class of characters.
pub open spec fn vee() -> spec_fn(char) -> bool {
    |c: char| c == 'v' || c == 'V'
}

/// Whether a character may lead a version.
fn is_vee(c: char) -> (b: bool)
    ensures
        b == vee()(c),
{
    c == 'v' || c == 'V'
}

/// The number that the `i`-th part of a version stands for: what comes before its first hyphen,
/// or zero where the part is missing.
pub open spec fn part(parts: Seq<Seq<char>>, i: int) -> Option<u64> {
    if i < parts.len() {
        number(before(parts[i], '-'))
    } else {
        Some(0)
    }
}

/// The major, minor and patch number that a text gives, if it gives a version.
pub open spec fn version(value: Seq<char>) -> Option<(u64, u64, u64)> {
    let text = trimmed(value);
    let parts = split(skip_while(text, vee()), '.');
    match (part(parts, 0), part(parts, 1), part(parts, 2)) {
        (Some(major), Some(minor), Some(patch)) => if text.len() == 0 {
            None
        } else {
            Some((major, minor, patch))
        },
        _ => None,
    }
}

/// Reads one part of a version.
fn read_part(parts: &[&[char]], i: usize) -> (n: Option<u64>)
    ensures
        n == part(pieces(parts@), i as int),
{
    if i < parts.len() {
        parse_number(cut_before(parts[i], '-'))
    } else {
        Some(0)
    }
}

/// Reads a version: numbers with dots between them, after optional white space and letters `v`. A
/// missing minor or patch number counts as zero; more parts than three are passed over, and so is
/// what follows a hyphen in a part.
pub fn parse_semver(value: &str) -> (result: Option<(u64, u64, u64)>)
    ensures
        result == version(value@),
{
    let chars = to_chars(value);
    let text = trim(chars.as_slice());
    if text.len() == 0 {
        return None;
    }
    let normalized = after_leading(text, is_vee, Ghost(vee()));
    let parts = split_at_char(normalized, '.');
    let major = read_part(parts.as_slice(), 0);
    let minor = read_part(parts.as_slice(), 1);
    let patch = read_part(parts.as_slice(), 2);
    match (major, minor, patch) {
        (Some(major), Some(minor), Some(patch)) => Some((major, minor, patch)),
        _ => None,
    }
}

/// Whether version `a` is `b` or a later one.
pub open spec fn at_least(a: (u64, u64, u64), b: (u64, u64, u64)) -> bool {
    ||| a.0 > b.0
    ||| a.0 == b.0 && a.1 > b.1
    ||| a.0 == b.0 && a.1 == b.1 && a.2 >= b.2
}

/// Compares two versions.
pub fn is_at_least(a: (u64, u64, u64), b: (u64, u64, u64)) -> (r: bool)
    ensures
        r == at_least(a, b),
{
    a.0 > b.0 || (a.0 == b.0 && (a.1 > b.1 || (a.1 == b.1 && a.2 >= b.2)))
}

/// The parts of a version, as far as they are looked at.
pub open spec fn version_parts(value: Seq<char>) -> Seq<Seq<char>> {
    split(skip_while(trimmed(value), vee()), '.')
}

/// White space around a version makes no difference.
pub proof fn law_version_ignores_white_space(a: Seq<char>, value: Seq<char>, b: Seq<char>)
    requires
        forall|i: int| 0 <= i < a.len() ==> is_white(a[i]),
        forall|i: int| 0 <= i < b.len() ==> is_white(b[i]),
    ensures
        version(a + value + b) == version(value),
{
    law_trimming_ignores_white_space(a, value, b);
}

/// A text that does not begin with white space keeps what is put before it when it is trimmed.
proof fn lemma_trim_after(a: Seq<char>, b: Seq<char>)
    requires
        a.len() > 0,
        !is_white(a[0]),
        drop_trailing(b, white()).len() > 0,
    ensures
        trimmed(a + b) == a + drop_trailing(b, white()),
{
    assert((a + b)[0] == a[0]);
    lemma_drop_prepend(a, b, white());
}

/// A text that begins with white space writes no number, whatever follows it.
proof fn lemma_no_number_after_white_space(s: Seq<char>)
    requires
        s.len() > 0,
        is_white(s[0]),
    ensures
        part(split(s, '.'), 0) is None,
{
    let k = find(s, '.');
    lemma_find(s, '.', k);
    let first = split(s, '.')[0];
    assert(first.len() > 0 && first[0] == s[0]) by {
        if k < s.len() {
            assert(first == s.take(k));
        } else {
            assert(first == s);
        }
    }
    lemma_find(first, '-', find(first, '-'));
    let digits = before(first, '-');
    assert(digits[0] == s[0]);
    assert(!is_digit(unsigned_part(digits)[0]));
}

/// A letter `v`, small or capital, in front of a version makes no difference, as long as no white
/// space comes between the two.
pub proof fn law_version_ignores_prefix(letter: char, value: Seq<char>)
    requires
        letter == 'v' || letter == 'V',
        value.len() > 0 && is_white(value[0]) ==> version(value) is None,
    ensures
        version(seq![letter] + value) == version(value),
{
    let whole = seq![letter] + value;
    let end = drop_trailing(value, white());
    lemma_drop_trailing(value, white());
    if end.len() == 0 {
        lemma_drop_suffix(seq![letter], value, white());
        assert(trimmed(whole) =~= seq![letter]);
        assert(seq![letter].drop_first() =~= Seq::empty());
        assert(vee()(seq![letter][0]));
        assert(skip_while(Seq::<char>::empty(), vee()) =~= Seq::empty());
        assert(skip_while(trimmed(whole), vee()) =~= Seq::empty());
        lemma_split_one(Seq::empty(), '.');
        lemma_split_one(Seq::empty(), '-');
        assert(split(skip_while(trimmed(whole), vee()), '.')[0] =~= Seq::empty());
        assert(number(Seq::empty()) is None);
        lemma_skip_prefix(value, Seq::empty(), white());
        assert(value + Seq::<char>::empty() =~= value);
        assert(skip_while(Seq::<char>::empty(), white()) =~= Seq::empty());
        assert(trimmed(value) =~= Seq::empty());
    } else {
        lemma_trim_after(seq![letter], value);
        assert(trimmed(whole).drop_first() =~= end);
        if is_white(value[0]) {
            assert(end[0] == value[0]);
            assert(skip_while(end, vee()) == end);
            lemma_no_number_after_white_space(end);
        }
    }
}

/// What becomes of a version that does not end in white space when something that begins with a
/// visible character is put behind it.
proof fn lemma_extended(value: Seq<char>, tail: Seq<char>)
    requires
        drop_trailing(value, white()) == value,
        tail.len() > 0,
        !is_white(tail[0]),
        !vee()(tail[0]),
    ensures
        drop_trailing(tail, white()).len() > 0,
        drop_trailing(tail, white())[0] == tail[0],
        trimmed(value + tail).len() > 0,
        skip_while(trimmed(value + tail), vee()) == skip_while(trimmed(value), vee())
            + drop_trailing(tail, white()),
{
    let end = drop_trailing(tail, white());
    lemma_drop_trailing(tail, white());
    if end.len() == 0 {
        assert(is_white(tail[0]));
    }
    lemma_skip_while(value, white());
    let shown = skip_while(value, white());
    let margin = value.take(value.len() - shown.len());
    assert(value =~= margin + shown);
    assert(value + tail =~= margin + (shown + tail));
    lemma_skip_prefix(margin, shown + tail, white());
    assert(trimmed(value) == shown) by {
        lemma_drop_trailing(value, white());
        if shown.len() > 0 {
            assert(shown.last() == value.last());
        }
    }
    if shown.len() > 0 {
        assert((shown + tail)[0] == shown[0]);
        lemma_trim_after(shown, tail);
    } else {
        assert(shown + tail =~= tail);
        assert(shown + end =~= end);
    }
    assert(trimmed(value + tail) == shown + end);
    lemma_skip_while(shown, vee());
    let kept = skip_while(shown, vee());
    if kept.len() > 0 {
        lemma_skip_append(shown, end, vee());
    } else {
        lemma_skip_prefix(shown, end, vee());
        assert(kept + end =~= end);
    }
}

/// Parts beyond the third make no difference.
pub proof fn law_version_ignores_extra_parts(value: Seq<char>, more: Seq<char>)
    requires
        drop_trailing(value, white()) == value,
        version_parts(value).len() >= 3,
    ensures
        version(value + "."@ + more) == version(value),
{
    reveal_strlit(".");
    let tail = "."@ + more;
    assert(value + "."@ + more =~= value + tail);
    lemma_extended(value, tail);
    let kept = skip_while(trimmed(value), vee());
    let end = drop_trailing(tail, white());
    lemma_split_join(kept, end, '.');
    lemma_find(end, '.', 0);
    assert(end.take(0) =~= Seq::empty());
    assert(split(end, '.')[0] =~= Seq::empty());
    let parts = split(kept, '.');
    let longer = split(kept + end, '.');
    assert(parts.last() + Seq::<char>::empty() =~= parts.last());
    assert forall|i: int| 0 <= i < parts.len() implies longer[i] == parts[i] by {
        if i < parts.len() - 1 {
            assert(parts.drop_last()[i] == parts[i]);
        }
    }
    assert(part(longer, 0) == part(parts, 0));
    assert(part(longer, 1) == part(parts, 1));
    assert(part(longer, 2) == part(parts, 2));
    lemma_nothing_is_no_version(value);
}

/// A text without visible characters has no parts that are numbers.
proof fn lemma_nothing_is_no_version(value: Seq<char>)
    ensures
        trimmed(value).len() == 0 ==> part(version_parts(value), 0) is None,
{
    if trimmed(value).len() == 0 {
        let kept = skip_while(trimmed(value), vee());
        assert(kept =~= Seq::empty());
        lemma_split_one(kept, '.');
        lemma_split_one(kept, '-');
        assert(version_parts(value)[0] =~= Seq::empty());
        assert(number(Seq::empty()) is None);
    }
}

/// What stands before the first hyphen does not change when more is put behind a hyphen.
proof fn lemma_before_hyphen(a: Seq<char>, b: Seq<char>)
    requires
        b.len() > 0,
        b[0] == '-',
    ensures
        before(a + b, '-') == before(a, '-'),
{
    let k = find(a, '-');
    lemma_find(a, '-', k);
    let ab = a + b;
    assert forall|j: int| 0 <= j < k implies ab[j] != '-' by {
        assert(ab[j] == a[j]);
    }
    assert(ab[k] == '-') by {
        if k < a.len() {
            assert(ab[k] == a[k]);
        } else {
            assert(ab[k] == b[0]);
        }
    }
    lemma_find(ab, '-', k);
    assert(ab.take(k) =~= a.take(k));
}

/// A hyphen behind three parts or more, and whatever follows it, makes no difference: a pre-release
/// counts as the release that it leads up to. Behind fewer parts the same holds of what has no dot.
pub proof fn law_version_ignores_prerelease(value: Seq<char>, prerelease: Seq<char>)
    requires
        drop_trailing(value, white()) == value,
        version_parts(value).len() >= 3 || forall|i: int|
            0 <= i < prerelease.len() ==> prerelease[i] != '.',
    ensures
        version(value + "-"@ + prerelease) == version(value),
{
    reveal_strlit("-");
    let tail = "-"@ + prerelease;
    assert(value + "-"@ + prerelease =~= value + tail);
    lemma_extended(value, tail);
    let kept = skip_while(trimmed(value), vee());
    let end = drop_trailing(tail, white());
    lemma_drop_trailing(tail, white());
    lemma_split_join(kept, end, '.');
    let parts = split(kept, '.');
    let longer = split(kept + end, '.');
    let n = parts.len();
    let first = split(end, '.')[0];
    let k = find(end, '.');
    lemma_find(end, '.', k);
    assert(k > 0);
    assert(first.len() > 0 && first[0] == '-') by {
        if k < end.len() {
            assert(first == end.take(k));
        } else {
            assert(first == end);
        }
    }
    assert forall|i: int| 0 <= i < n - 1 implies longer[i] == parts[i] by {
        assert(parts.drop_last()[i] == parts[i]);
    }
    assert(longer[n - 1] == parts[n - 1] + first);
    lemma_before_hyphen(parts[n - 1], first);
    if n < 3 {
        assert forall|i: int| 0 <= i < end.len() implies end[i] != '.' by {
            assert(end[i] == tail[i]);
            if i > 0 {
                assert(tail[i] == prerelease[i - 1]);
            }
        }
        lemma_split_one(end, '.');
        assert(longer.len() == n);
    }
    assert(part(longer, 0) == part(parts, 0));
    assert(part(longer, 1) == part(parts, 1));
    assert(part(longer, 2) == part(parts, 2));
    lemma_nothing_is_no_version(value);
}

/// What the digits of a number are to the reader of a version: one part, and visible.
proof fn lemma_digits_as_part(n: u64)
    ensures
        split(decimal(n as nat), '.') == seq![decimal(n as nat)],
        number(before(decimal(n as nat), '-')) == Some(n),
        trimmed(decimal(n as nat)) == decimal(n as nat),
        skip_while(decimal(n as nat), vee()) == decimal(n as nat),
        decimal(n as nat).len() > 0,
        !is_white(decimal(n as nat).last()),
        !is_white(decimal(n as nat)[0]),
{
    let s = decimal(n as nat);
    lemma_decimal(n as nat);
    law_numbers_read_back(n);
    assert forall|i: int| 0 <= i < s.len() implies s[i] != '.' && s[i] != '-' && !is_white(s[i])
        && !vee()(s[i]) by {
        assert('0' <= s[i] <= '9');
    }
    lemma_split_one(s, '.');
    lemma_split_one(s, '-');
}

/// The parts of a text, a dot and a number are those of the text and the number.
proof fn lemma_dotted(s: Seq<char>, n: u64)
    ensures
        split(s + "."@ + decimal(n as nat), '.') == split(s, '.').push(decimal(n as nat)),
{
    reveal_strlit(".");
    let d = decimal(n as nat);
    lemma_digits_as_part(n);
    let tail = "."@ + d;
    assert(s + "."@ + d =~= s + tail);
    lemma_find(tail, '.', 0);
    assert(tail.take(0) =~= Seq::empty());
    assert(tail.skip(1) =~= d);
    assert(split(tail, '.') =~= seq![Seq::empty(), d]);
    lemma_split_join(s, tail, '.');
    assert(split(s, '.').last() + Seq::<char>::empty() =~= split(s, '.').last());
    assert(split(s + tail, '.') =~= split(s, '.').push(d));
}

/// A text that begins and ends with a digit is neither trimmed nor stripped of a letter.
proof fn lemma_kept_whole(s: Seq<char>)
    requires
        s.len() > 0,
        !is_white(s[0]),
        !vee()(s[0]),
        !is_white(s.last()),
    ensures
        trimmed(s) == s,
        skip_while(s, vee()) == s,
{
}

/// A version that is written out reads as itself, and missing numbers count as zero.
pub proof fn law_versions_read_back(major: u64, minor: u64, patch: u64)
    ensures
        version(decimal(major as nat)) == Some((major, 0u64, 0u64)),
        version(decimal(major as nat) + "."@ + decimal(minor as nat)) == Some((major, minor, 0u64)),
        version(
            decimal(major as nat) + "."@ + decimal(minor as nat) + "."@ + decimal(patch as nat),
        ) == Some((major, minor, patch)),
{
    let a = decimal(major as nat);
    let b = decimal(minor as nat);
    let c = decimal(patch as nat);
    let ab = a + "."@ + b;
    let abc = ab + "."@ + c;
    lemma_digits_as_part(major);
    lemma_digits_as_part(minor);
    lemma_digits_as_part(patch);
    lemma_decimal(major as nat);
    assert(is_digit(a[0]));
    lemma_dotted(a, minor);
    lemma_dotted(ab, patch);
    assert(ab[0] == a[0] && ab.last() == b.last());
    assert(abc[0] == a[0] && abc.last() == c.last());
    lemma_kept_whole(ab);
    lemma_kept_whole(abc);
    assert(split(a, '.')[0] == a);
    assert(split(ab, '.') =~= seq![a, b]);
    assert(split(abc, '.') =~= seq![a, b, c]);
}

/// The order of versions is total: reflexive, transitive, and any two can be compared; only equal
/// ones are each at least the other.
pub proof fn law_versions_are_ordered(a: (u64, u64, u64), b: (u64, u64, u64), c: (u64, u64, u64))
    ensures
        at_least(a, a),
        at_least(a, b) || at_least(b, a),
        at_least(a, b) && at_least(b, a) ==> a == b,
        at_least(a, b) && at_least(b, c) ==> at_least(a, c),
{
}

/// Whether a text can be one part of a version without a pre-release: it holds neither dots nor
/// hyphens nor white space.
pub open spec fn is_plain_part(s: Seq<char>) -> bool {
    &&& free_of(s, '.')
    &&& free_of(s, '-')
    &&& forall|i: int| 0 <= i < s.len() ==> !is_white(#[trigger] s[i])
}

/// A version is its numbers: up to three parts with dots between them read as a version exactly when
/// each is a number, the numbers come in the order of the parts, and those that are missing are
/// zero.
pub proof fn law_versions_are_made_of_numbers(x: Seq<char>, y: Seq<char>, z: Seq<char>)
    requires
        is_plain_part(x),
        is_plain_part(y),
        is_plain_part(z),
        x.len() > 0 ==> x[0] != 'v' && x[0] != 'V',
    ensures
        version(x) == (match number(x) {
            Some(a) => Some((a, 0u64, 0u64)),
            None => None,
        }),
        version(x + "."@ + y) == (match (number(x), number(y)) {
            (Some(a), Some(b)) => Some((a, b, 0u64)),
            _ => None,
        }),
        version(x + "."@ + y + "."@ + z) == (match (number(x), number(y), number(z)) {
            (Some(a), Some(b), Some(c)) => Some((a, b, c)),
            _ => None,
        }),
{
    reveal_strlit(".");
    let dot = seq!['.'];
    assert("."@ =~= dot);
    let yz = y + dot + z;
    let xy = x + dot + y;
    let xyz = x + dot + yz;
    assert(x + "."@ + y + "."@ + z =~= xyz);
    law_parts_end_at_separators(x, y, '.');
    law_parts_end_at_separators(y, z, '.');
    law_parts_end_at_separators(x, yz, '.');
    law_parts_end_at_separators(z, z, '.');
    law_parts_end_at_separators(x, x, '-');
    law_parts_end_at_separators(y, y, '-');
    law_parts_end_at_separators(z, z, '-');
    assert(split(xy, '.') =~= seq![x, y]);
    assert(split(xyz, '.') =~= seq![x, y, z]);
    assert(number(Seq::<char>::empty()) is None);
    assert(x.len() == 0 ==> x =~= Seq::empty());
    if x.len() == 0 {
        assert(skip_while(x, white()) == x);
        assert(trimmed(x) == x);
    } else {
        assert(x[x.len() - 1] == x.last());
        lemma_kept_whole(x);
        assert(split(x, '.')[0] == x);
    }
    assert(xy[0] == (if x.len() > 0 { x[0] } else { '.' }));
    assert(xy.last() == (if y.len() > 0 { y[y.len() - 1] } else { '.' }));
    lemma_kept_whole(xy);
    assert(xyz[0] == (if x.len() > 0 { x[0] } else { '.' }));
    assert(xyz.last() == (if z.len() > 0 { z[z.len() - 1] } else { '.' }));
    lemma_kept_whole(xyz);
}

/// Versions are compared by their major numbers, by their minor numbers where those are the same,
/// and by their patch numbers where both are: the one with the smaller number is the earlier one.
pub proof fn law_smaller_numbers_make_earlier_versions(a: (u64, u64, u64), b: (u64, u64, u64))
    ensures
        a.0 < b.0 ==> !at_least(a, b) && at_least(b, a),
        a.0 == b.0 && a.1 < b.1 ==> !at_least(a, b) && at_least(b, a),
        a.0 == b.0 && a.1 == b.1 && a.2 < b.2 ==> !at_least(a, b) && at_least(b, a),
{
}

/// Whether a text can follow a number in its part of a version without counting: nothing, or a
/// hyphen and anything but dots and white space.
pub open spec fn is_tail(s: Seq<char>) -> bool {
    &&& s.len() > 0 ==> s[0] == '-'
    &&& free_of(s, '.')
    &&& forall|i: int| 0 <= i < s.len() ==> !is_white(#[trigger] s[i])
}

/// In every part of a version, what follows the first hyphen does not count.
pub proof fn law_parts_end_at_their_hyphens(
    x: Seq<char>,
    x_tail: Seq<char>,
    y: Seq<char>,
    y_tail: Seq<char>,
    z: Seq<char>,
    z_tail: Seq<char>,
)
    requires
        is_plain_part(x),
        is_plain_part(y),
        is_plain_part(z),
        is_tail(x_tail),
        is_tail(y_tail),
        is_tail(z_tail),
        x.len() > 0 ==> x[0] != 'v' && x[0] != 'V',
    ensures
        version(x + x_tail + "."@ + (y + y_tail) + "."@ + (z + z_tail)) == version(
            x + "."@ + y + "."@ + z,
        ),
{
    reveal_strlit(".");
    let dot = seq!['.'];
    assert("."@ =~= dot);
    let p = x + x_tail;
    let q = y + y_tail;
    let r = z + z_tail;
    let qr = q + dot + r;
    let whole = p + dot + qr;
    assert(x + x_tail + "."@ + (y + y_tail) + "."@ + (z + z_tail) =~= whole);
    lemma_with_tail(x, x_tail);
    lemma_with_tail(y, y_tail);
    lemma_with_tail(z, z_tail);
    law_parts_end_at_separators(p, qr, '.');
    law_parts_end_at_separators(q, r, '.');
    law_parts_end_at_separators(r, r, '.');
    assert(split(whole, '.') =~= seq![p, q, r]);
    assert(whole[0] == (if p.len() > 0 { p[0] } else { '.' }));
    assert(whole.last() == (if r.len() > 0 { r[r.len() - 1] } else { '.' }));
    assert(p.len() > 0 ==> p[0] == (if x.len() > 0 { x[0] } else { x_tail[0] }));
    lemma_kept_whole(whole);
    law_versions_are_made_of_numbers(x, y, z);
}

proof fn lemma_with_tail(x: Seq<char>, tail: Seq<char>)
    requires
        is_plain_part(x),
        is_tail(tail),
    ensures
        free_of(x + tail, '.'),
        before(x + tail, '-') == x,
        forall|i: int| 0 <= i < (x + tail).len() ==> !is_white(#[trigger] (x + tail)[i]),
{
    let all = x + tail;
    assert forall|i: int| 0 <= i < all.len() implies #[trigger] all[i] != '.' && !is_white(
        all[i],
    ) by {
        if i < x.len() {
            assert(all[i] == x[i]);
        } else {
            assert(all[i] == tail[i - x.len()]);
        }
    }
    if tail.len() > 0 {
        law_parts_end_at_separators(x, tail.drop_first(), '-');
        assert(all =~= x + seq!['-'] + tail.drop_first());
    } else {
        law_parts_end_at_separators(x, x, '-');
        assert(all =~= x);
    }
}

} // verus!
