//! What the string operations come to, told by what stands in the strings: how
//! trimming, searching, splitting, joining and writing numbers relate to the
//! characters they are given.
use vstd::prelude::*;
use crate::text::{
    ascii_lower, decimal, digit, find_from, is_blank, is_white, joined, lemma_find_from, lines_of,
    lowered, mentions, occurs_at, or_empty, signed_decimal, split_on, trim_end, trim_start, trimmed,
    without_end_slashes,
};

verus! {

// ── Trimming ──────────────────────────────────────────────────────────
/// Trimming cuts off the white space at both ends, all of it and nothing else:
/// where only white space stands before `i` and from `j` on, and none at either
/// end between them, what stands between them is left.
pub proof fn trimming_leaves_what_is_between(s: Seq<char>, i: int, j: int)
    requires
        0 <= i <= j <= s.len(),
        forall|k: int| 0 <= k < i ==> is_white(#[trigger] s[k]),
        forall|k: int| j <= k < s.len() ==> is_white(#[trigger] s[k]),
        i < j ==> !is_white(s[i]) && !is_white(s[j - 1]),
    ensures
        trimmed(s) == s.subrange(i, j),
    decreases s.len(),
{
    if s.len() == 0 {
        assert(trimmed(s) =~= s.subrange(i, j));
    } else if i > 0 {
        assert(is_white(s[0]));
        let rest = s.skip(1);
        assert forall|k: int| 0 <= k < i - 1 implies is_white(#[trigger] rest[k]) by {
            assert(rest[k] == s[k + 1]);
        }
        assert forall|k: int| j - 1 <= k < rest.len() implies is_white(#[trigger] rest[k]) by {
            assert(rest[k] == s[k + 1]);
        }
        trimming_leaves_what_is_between(rest, i - 1, j - 1);
        assert(rest.subrange(i - 1, j - 1) =~= s.subrange(i, j));
    } else if j == 0 {
        assert(is_white(s[0]));
        let rest = s.skip(1);
        assert forall|k: int| 0 <= k < rest.len() implies is_white(#[trigger] rest[k]) by {
            assert(rest[k] == s[k + 1]);
        }
        trimming_leaves_what_is_between(rest, 0, 0);
        assert(rest.subrange(0, 0) =~= s.subrange(0, 0));
    } else {
        assert(trim_start(s) == s);
        lemma_trim_end_leaves(s, j);
        assert(s.take(j) =~= s.subrange(0, j));
    }
}

proof fn lemma_trim_end_leaves(s: Seq<char>, j: int)
    requires
        0 < j <= s.len(),
        !is_white(s[j - 1]),
        forall|k: int| j <= k < s.len() ==> is_white(#[trigger] s[k]),
    ensures
        trim_end(s) == s.take(j),
    decreases s.len(),
{
    if j == s.len() {
        assert(s.take(j) =~= s);
    } else {
        assert(is_white(s.last()));
        let front = s.drop_last();
        assert(forall|k: int| j <= k < front.len() ==> front[k] == s[k]);
        lemma_trim_end_leaves(front, j);
        assert(front.take(j) =~= s.take(j));
    }
}

/// A text is blank where every character of it is white space, and only there.
pub proof fn blank_texts_are_white(s: Seq<char>)
    ensures
        is_blank(s) <==> forall|k: int| 0 <= k < s.len() ==> is_white(#[trigger] s[k]),
{
    if forall|k: int| 0 <= k < s.len() ==> is_white(#[trigger] s[k]) {
        trimming_leaves_what_is_between(s, 0, 0);
    } else if is_blank(s) {
        lemma_blank_is_white(s);
    }
}

proof fn lemma_blank_is_white(s: Seq<char>)
    requires
        is_blank(s),
    ensures
        forall|k: int| 0 <= k < s.len() ==> is_white(#[trigger] s[k]),
    decreases s.len(),
{
    if s.len() > 0 {
        if is_white(s[0]) {
            lemma_blank_is_white(s.skip(1));
            assert forall|k: int| 0 <= k < s.len() implies is_white(#[trigger] s[k]) by {
                if k > 0 {
                    assert(s.skip(1)[k - 1] == s[k]);
                }
            }
        } else {
            lemma_trim_end_keeps(s);
        }
    }
}

proof fn lemma_trim_end_keeps(s: Seq<char>)
    requires
        s.len() > 0,
        !is_white(s[0]),
    ensures
        trim_end(s).len() > 0,
    decreases s.len(),
{
    if is_white(s.last()) {
        lemma_trim_end_keeps(s.drop_last());
    }
}

/// Every text has a stretch that trimming leaves: white space before it, white
/// space behind it, and none at its ends.
pub proof fn every_text_can_be_trimmed(s: Seq<char>) -> (r: (int, int))
    ensures
        0 <= r.0 <= r.1 <= s.len(),
        forall|k: int| 0 <= k < r.0 ==> is_white(#[trigger] s[k]),
        forall|k: int| r.1 <= k < s.len() ==> is_white(#[trigger] s[k]),
        r.0 < r.1 ==> !is_white(s[r.0]) && !is_white(s[r.1 - 1]),
        trimmed(s) == s.subrange(r.0, r.1),
    decreases s.len(),
{
    let r = if s.len() == 0 {
        (0int, 0int)
    } else if is_white(s[0]) {
        let (i, j) = every_text_can_be_trimmed(s.skip(1));
        assert forall|k: int| 0 <= k < i + 1 implies is_white(#[trigger] s[k]) by {
            if k > 0 {
                assert(s.skip(1)[k - 1] == s[k]);
            }
        }
        assert forall|k: int| j + 1 <= k < s.len() implies is_white(#[trigger] s[k]) by {
            assert(s.skip(1)[k - 1] == s[k]);
        }
        (i + 1, j + 1)
    } else if is_white(s.last()) {
        let (i, j) = every_text_can_be_trimmed(s.drop_last());
        assert(i == 0) by {
            if i > 0 {
                assert(s.drop_last()[0] == s[0]);
            }
        }
        assert(j > 0) by {
            if j == 0 {
                assert(s.drop_last()[0] == s[0]);
            }
        }
        assert forall|k: int| j <= k < s.len() implies is_white(#[trigger] s[k]) by {
            if k < s.len() - 1 {
                assert(s.drop_last()[k] == s[k]);
            }
        }
        (i, j)
    } else {
        (0int, s.len() as int)
    };
    trimming_leaves_what_is_between(s, r.0, r.1);
    r
}

/// The slashes at the end go, all of them and nothing else.
pub proof fn end_slashes_go(s: Seq<char>, n: int)
    requires
        0 <= n <= s.len(),
        forall|k: int| n <= k < s.len() ==> #[trigger] s[k] == '/',
        n > 0 ==> s[n - 1] != '/',
    ensures
        without_end_slashes(s) == s.take(n),
    decreases s.len(),
{
    if n == s.len() {
        assert(s.take(n) =~= s);
    } else {
        assert(s.last() == '/');
        let front = s.drop_last();
        assert(forall|k: int| n <= k < front.len() ==> front[k] == s[k]);
        end_slashes_go(front, n);
        assert(front.take(n) =~= s.take(n));
    }
}

/// What is missing counts as empty, and what is there as it is.
pub proof fn missing_texts_are_empty(s: Seq<char>)
    ensures
        or_empty(None).len() == 0,
        or_empty(Some(s)) == s,
{
}

// ── Searching ─────────────────────────────────────────────────────────
/// A text mentions what stands in it, wherever that is, and nothing else.
pub proof fn texts_mention_what_stands_in_them(
    s: Seq<char>,
    front: Seq<char>,
    pattern: Seq<char>,
    back: Seq<char>,
)
    ensures
        mentions(front + pattern + back, pattern),
        mentions(s, pattern) ==> exists|a: Seq<char>, b: Seq<char>| #[trigger]
            (a + pattern + b) == s,
{
    let all = front + pattern + back;
    let n = front.len() as int;
    assert(all.subrange(n, n + pattern.len()) =~= pattern);
    assert(occurs_at(all, pattern, n));
    if mentions(s, pattern) {
        let at = choose|at: int| #[trigger] occurs_at(s, pattern, at);
        let a = s.take(at);
        let b = s.skip(at + pattern.len());
        assert(a + pattern + b =~= s);
    }
}

/// Making capitals small keeps every character in its place: the ASCII capitals
/// become the letters 32 places on, and all other characters stay.
pub proof fn only_capitals_are_made_small(s: Seq<char>, i: int)
    requires
        0 <= i < s.len(),
    ensures
        lowered(s).len() == s.len(),
        'A' <= s[i] <= 'Z' ==> lowered(s)[i] as int == s[i] as int + 32,
        !('A' <= s[i] <= 'Z') ==> lowered(s)[i] == s[i],
{
    assert(lowered(s)[i] == ascii_lower(s[i]));
}

// ── Splitting and joining ─────────────────────────────────────────────
/// A text without the separator is one part.
pub proof fn texts_without_separator_are_whole(s: Seq<char>, separator: Seq<char>)
    requires
        !mentions(s, separator),
    ensures
        split_on(s, separator) == seq![s],
{
    lemma_find_from(s, separator, 0);
}

/// The first separator ends the first part, and the rest is split in turn.
pub proof fn first_separator_ends_first_part(
    first: Seq<char>,
    separator: Seq<char>,
    rest: Seq<char>,
)
    requires
        separator.len() > 0,
        forall|j: int|
            0 <= j < first.len() ==> !#[trigger] occurs_at(first + separator + rest, separator, j),
    ensures
        split_on(first + separator + rest, separator) == seq![first] + split_on(rest, separator),
{
    let s = first + separator + rest;
    let n = first.len() as int;
    assert(s.subrange(n, n + separator.len()) =~= separator);
    assert(occurs_at(s, separator, n));
    lemma_find_from(s, separator, 0);
    let i = find_from(s, separator, 0)->0;
    assert(i == n);
    assert(s.take(n) =~= first);
    assert(s.skip(n + separator.len()) =~= rest);
}

/// A line ends at the first line feed, and a carriage return in front of it is
/// no part of the line; the rest is read in turn.
pub proof fn line_feeds_end_lines(line: Seq<char>, rest: Seq<char>)
    requires
        !line.contains('\n'),
    ensures
        line.len() > 0 && line.last() == '\r' ==> lines_of(line + seq!['\n'] + rest) == seq![
            line.drop_last(),
        ] + lines_of(rest),
        line.len() == 0 || line.last() != '\r' ==> lines_of(line + seq!['\n'] + rest) == seq![line]
            + lines_of(rest),
{
    let s = line + seq!['\n'] + rest;
    let n = line.len() as int;
    let feed = seq!['\n'];
    assert(s.subrange(n, n + 1) =~= feed);
    assert(occurs_at(s, feed, n));
    lemma_find_from(s, feed, 0);
    let i = find_from(s, feed, 0)->0;
    assert(i == n) by {
        if i < n {
            assert(s.subrange(i, i + 1)[0] == '\n');
            assert(line[i] == '\n');
        }
    }
    assert(s.take(n) =~= line);
    assert(s.skip(n + 1) =~= rest);
}

/// What follows the last line feed is a line unless it is empty.
pub proof fn last_lines_need_no_line_feed(line: Seq<char>)
    requires
        !line.contains('\n'),
    ensures
        line.len() == 0 ==> lines_of(line).len() == 0,
        line.len() > 0 ==> lines_of(line) == seq![line],
{
    lemma_find_from(line, seq!['\n'], 0);
    if let Some(i) = find_from(line, seq!['\n'], 0) {
        assert(line.subrange(i, i + 1)[0] == '\n');
        assert(line[i] == '\n');
    }
}

/// Two lists of parts joined as one are their two texts with the separator in
/// between; one part joined is that part, and none is nothing.
pub proof fn joining_puts_separators_between(
    a: Seq<Seq<char>>,
    b: Seq<Seq<char>>,
    part: Seq<char>,
    separator: Seq<char>,
)
    ensures
        a.len() > 0 && b.len() > 0 ==> joined(a + b, separator) == joined(a, separator) + separator
            + joined(b, separator),
        joined(seq![part], separator) == part,
        joined(seq![], separator).len() == 0,
    decreases b.len(),
{
    if a.len() > 0 && b.len() > 0 {
        assert((a + b).drop_last() =~= a + b.drop_last());
        assert((a + b).last() == b.last());
        if b.len() == 1 {
            assert(a + b.drop_last() =~= a);
        } else {
            joining_puts_separators_between(a, b.drop_last(), part, separator);
            assert(joined(a + b, separator) =~= joined(a, separator) + separator + joined(
                b,
                separator,
            ));
        }
    }
}

// ── Numbers ───────────────────────────────────────────────────────────
/// The number that `digits` write down.
pub open spec fn number(digits: Seq<char>) -> int
    decreases digits.len(),
{
    if digits.len() == 0 {
        0
    } else {
        10 * number(digits.drop_last()) + (digits.last() as int - '0' as int)
    }
}

/// The text of a number is digits, reads as that number, and has no leading
/// zero.
pub proof fn numbers_read_back(n: int)
    requires
        0 <= n,
    ensures
        number(decimal(n)) == n,
        decimal(n).len() > 0,
        forall|i: int| 0 <= i < decimal(n).len() ==> '0' <= #[trigger] decimal(n)[i] <= '9',
        n > 0 ==> decimal(n)[0] != '0',
        n == 0 ==> decimal(n) == seq!['0'],
    decreases n,
{
    reveal_with_fuel(number, 2);
    if n >= 10 {
        numbers_read_back(n / 10);
        let front = decimal(n / 10);
        assert(decimal(n).drop_last() =~= front);
        assert(decimal(n).last() == digit(n % 10));
        assert forall|i: int| 0 <= i < decimal(n).len() implies '0' <= #[trigger] decimal(n)[i]
            <= '9' by {
            if i < front.len() {
                assert(decimal(n)[i] == front[i]);
            }
        }
        assert(decimal(n)[0] == front[0]);
    } else {
        assert(decimal(n) =~= seq![digit(n)]);
        assert(decimal(n).drop_last() =~= seq![]);
        assert(digit(n) as int == 48 + n);
        assert(digit(0) == '0');
    }
}

/// A negative number is its size behind a minus sign; any other has none.
pub proof fn signs_are_written(n: int)
    ensures
        n < 0 ==> signed_decimal(n).len() > 1 && signed_decimal(n)[0] == '-' && signed_decimal(
            n,
        ).skip(1) == decimal(-n),
        n >= 0 ==> signed_decimal(n) == decimal(n),
{
    if n < 0 {
        numbers_read_back(-n);
        assert(signed_decimal(n).skip(1) =~= decimal(-n));
    }
}

} // verus!
