//! Reading bytes: splitting, trimming, and decimal numbers.

use vstd::prelude::*;

verus! {

/// The byte that ends a line.
pub const NEWLINE: u8 = 10;

/// The byte that may stand before the end of a line.
pub const CARRIAGE_RETURN: u8 = 13;

/// The byte that separates the fields of a line.
pub const COMMA: u8 = 44;

/// What each of `pieces` holds.
pub open spec fn views(pieces: Seq<Vec<u8>>) -> Seq<Seq<u8>> {
    Seq::new(pieces.len(), |i: int| pieces[i]@)
}

/// The pieces of `text` between the occurrences of `sep`, in order. There is
/// always at least one piece: a text without `sep` is its own only piece, and
/// a text that ends in `sep` has an empty last piece.
pub open spec fn split_on(text: Seq<u8>, sep: u8) -> Seq<Seq<u8>>
    decreases text.len(),
{
    if text.len() == 0 {
        seq![Seq::<u8>::empty()]
    } else {
        let before = split_on(text.drop_last(), sep);
        if text.last() == sep {
            before.push(Seq::<u8>::empty())
        } else {
            before.drop_last().push(before.last().push(text.last()))
        }
    }
}

/// `line` without a carriage return at its end.
pub open spec fn without_return(line: Seq<u8>) -> Seq<u8> {
    if line.len() > 0 && line.last() == CARRIAGE_RETURN {
        line.drop_last()
    } else {
        line
    }
}

/// The lines of `text`. A line ends at a newline, and a carriage return
/// right before that newline is not part of the line. What follows the last
/// newline is a line too, unless it is empty.
pub open spec fn lines_of(text: Seq<u8>) -> Seq<Seq<u8>> {
    let pieces = split_on(text, NEWLINE);
    let count = if pieces.last().len() == 0 {
        pieces.len() - 1
    } else {
        pieces.len() as int
    };
    Seq::new(
        count as nat,
        |i: int|
            if i < pieces.len() - 1 {
                without_return(pieces[i])
            } else {
                pieces[i]
            },
    )
}

/// Whether `b` is blank: a space, or one of the control characters from tab
/// to carriage return.
pub open spec fn is_blank(b: u8) -> bool {
    b == 32 || (9 <= b <= 13)
}

/// `s` without the blanks at its start.
pub open spec fn trim_start(s: Seq<u8>) -> Seq<u8>
    decreases s.len(),
{
    if s.len() > 0 && is_blank(s[0]) {
        trim_start(s.skip(1))
    } else {
        s
    }
}

/// `s` without the blanks at its end.
pub open spec fn trim_end(s: Seq<u8>) -> Seq<u8>
    decreases s.len(),
{
    if s.len() > 0 && is_blank(s.last()) {
        trim_end(s.drop_last())
    } else {
        s
    }
}

/// `s` without the blanks at its start and at its end.
pub open spec fn trimmed(s: Seq<u8>) -> Seq<u8> {
    trim_end(trim_start(s))
}

/// Whether `marker` occurs in `line` at place `at`.
pub open spec fn occurs_at(line: Seq<u8>, marker: Seq<u8>, at: int) -> bool {
    0 <= at && at + marker.len() <= line.len() && line.subrange(at, at + marker.len()) == marker
}

/// Whether `marker` occurs somewhere in `line`.
pub open spec fn has_marker(line: Seq<u8>, marker: Seq<u8>) -> bool {
    exists|at: int| occurs_at(line, marker, at)
}

/// Whether every byte of `s` is a decimal digit.
pub open spec fn all_digits(s: Seq<u8>) -> bool {
    forall|i: int| 0 <= i < s.len() ==> 48 <= #[trigger] s[i] <= 57
}

/// The number that the decimal digits `s` write.
pub open spec fn digits_value(s: Seq<u8>) -> nat
    decreases s.len(),
{
    if s.len() == 0 {
        0
    } else {
        (digits_value(s.drop_last()) * 10 + (s.last() - 48)) as nat
    }
}

/// The digits of a number: `s` itself, or what follows a plus sign at its
/// start.
pub open spec fn unsigned_part(s: Seq<u8>) -> Seq<u8> {
    if s.len() > 0 && s[0] == 43 {
        s.skip(1)
    } else {
        s
    }
}

/// The number that `s` writes, if it writes one that a `usize` can hold:
/// one or more decimal digits, with or without a plus sign before them.
pub open spec fn number_of(s: Seq<u8>) -> Option<usize> {
    let digits = unsigned_part(s);
    if digits.len() > 0 && all_digits(digits) && digits_value(digits) <= usize::MAX {
        Some(digits_value(digits) as usize)
    } else {
        None
    }
}

/// Splits `text` at every occurrence of `sep`.
pub fn split(text: &[u8], sep: u8) -> (pieces: Vec<Vec<u8>>)
    ensures
        views(pieces@) == split_on(text@, sep),
        pieces@.len() >= 1,
{
    let mut pieces: Vec<Vec<u8>> = Vec::new();
    let mut current: Vec<u8> = Vec::new();
    let mut i: usize = 0;
    while i < text.len()
        invariant
            i <= text@.len(),
            split_on(text@.take(i as int), sep) == views(pieces@).push(current@),
        decreases text@.len() - i,
    {
        let b = text[i];
        proof {
            assert(text@.take(i + 1).drop_last() == text@.take(i as int));
            assert(text@.take(i + 1).last() == b);
            assert(views(pieces@).push(current@).last() == current@);
            assert(views(pieces@).push(current@).drop_last() == views(pieces@));
        }
        if b == sep {
            let ghost done = views(pieces@);
            let ghost last = current@;
            pieces.push(current);
            current = Vec::new();
            proof {
                assert(views(pieces@) == done.push(last));
            }
        } else {
            current.push(b);
        }
        i = i + 1;
    }
    proof {
        assert(text@.take(text@.len() as int) == text@);
    }
    let ghost done = views(pieces@);
    let ghost last = current@;
    pieces.push(current);
    proof {
        assert(views(pieces@) == done.push(last));
    }
    pieces
}

/// The lines of `text`, as [`lines_of`] defines them.
pub fn lines(text: &[u8]) -> (found: Vec<Vec<u8>>)
    ensures
        views(found@) == lines_of(text@),
{
    let mut pieces = split(text, NEWLINE);
    let total = pieces.len();
    let ghost whole = views(pieces@);
    let mut i: usize = 0;
    while i + 1 < total
        invariant
            total == pieces@.len() == whole.len(),
            total >= 1,
            i + 1 <= total,
            forall|k: int| 0 <= k < i ==> (#[trigger] pieces@[k])@ == without_return(whole[k]),
            forall|k: int| i <= k < total ==> (#[trigger] pieces@[k])@ == whole[k],
        decreases total - i,
    {
        let n = pieces[i].len();
        if n > 0 && pieces[i][n - 1] == CARRIAGE_RETURN {
            let mut line = Vec::new();
            let mut j: usize = 0;
            while j + 1 < n
                invariant
                    n == pieces@[i as int]@.len(),
                    i < pieces@.len(),
                    j + 1 <= n,
                    line@ == pieces@[i as int]@.take(j as int),
                decreases n - j,
            {
                line.push(pieces[i][j]);
                proof {
                    assert(pieces@[i as int]@.take(j + 1) == pieces@[i as int]@.take(
                        j as int,
                    ).push(pieces@[i as int]@[j as int]));
                }
                j = j + 1;
            }
            proof {
                assert(pieces@[i as int]@.take(n - 1) == pieces@[i as int]@.drop_last());
            }
            pieces.set(i, line);
        }
        i = i + 1;
    }
    if pieces[total - 1].len() == 0 {
        pieces.pop();
    }
    proof {
        assert(views(pieces@) =~= lines_of(text@));
    }
    pieces
}

/// Where `s` without the blanks at its start and end begins and ends: the
/// bytes from `lo` up to `hi`.
pub fn trim(s: &[u8]) -> (bounds: (usize, usize))
    ensures
        bounds.0 <= bounds.1 <= s@.len(),
        s@.subrange(bounds.0 as int, bounds.1 as int) == trimmed(s@),
{
    let mut lo: usize = 0;
    proof {
        assert(s@.skip(0) == s@);
    }
    while lo < s.len() && is_blank_byte(s[lo])
        invariant
            lo <= s@.len(),
            trim_start(s@) == trim_start(s@.skip(lo as int)),
        decreases s@.len() - lo,
    {
        proof {
            assert(s@.skip(lo as int).skip(1) == s@.skip(lo + 1));
        }
        lo = lo + 1;
    }
    let ghost started = s@.skip(lo as int);
    proof {
        assert(trim_start(s@) == started);
    }
    let mut hi: usize = s.len();
    while hi > lo && is_blank_byte(s[hi - 1])
        invariant
            lo <= hi <= s@.len(),
            started == s@.skip(lo as int),
            trim_end(started) == trim_end(s@.subrange(lo as int, hi as int)),
        decreases hi,
    {
        proof {
            assert(s@.subrange(lo as int, hi as int).drop_last() == s@.subrange(
                lo as int,
                hi - 1,
            ));
        }
        hi = hi - 1;
    }
    proof {
        let kept = s@.subrange(lo as int, hi as int);
        if hi > lo {
            assert(kept.last() == s@[hi - 1]);
        }
        assert(trim_end(kept) == kept);
    }
    (lo, hi)
}

/// Whether `b` is blank.
pub fn is_blank_byte(b: u8) -> (blank: bool)
    ensures
        blank == is_blank(b),
{
    b == 32 || (9 <= b && b <= 13)
}

/// Whether `marker` occurs somewhere in `line`.
pub fn contains(line: &[u8], marker: &[u8]) -> (found: bool)
    ensures
        found == has_marker(line@, marker@),
{
    if marker.len() > line.len() {
        assert forall|at: int| !occurs_at(line@, marker@, at) by {}
        return false;
    }
    let length = line.len();
    let last = length - marker.len();
    let mut at: usize = 0;
    while at <= last
        invariant
            length == line@.len(),
            last == line@.len() - marker@.len(),
            marker@.len() <= line@.len(),
            at <= last + 1,
            forall|k: int| 0 <= k < at ==> !occurs_at(line@, marker@, k),
        decreases last + 1 - at,
    {
        let mut j: usize = 0;
        let mut same = true;
        while same && j < marker.len()
            invariant
                at <= last,
                length == line@.len(),
                last == line@.len() - marker@.len(),
                marker@.len() <= line@.len(),
                j <= marker@.len(),
                line@.subrange(at as int, at + j) == marker@.take(j as int),
                !same ==> j < marker@.len() && line@[at + j] != marker@[j as int],
            decreases marker@.len() - j + if same { 1int } else { 0int },
        {
            if line[at + j] == marker[j] {
                proof {
                    assert(line@.subrange(at as int, at + j + 1) == line@.subrange(
                        at as int,
                        at + j,
                    ).push(line@[at + j]));
                    assert(marker@.take(j + 1) == marker@.take(j as int).push(marker@[j as int]));
                }
                j = j + 1;
            } else {
                same = false;
            }
        }
        if same {
            proof {
                assert(marker@.take(j as int) == marker@);
                assert(occurs_at(line@, marker@, at as int));
            }
            return true;
        }
        proof {
            if occurs_at(line@, marker@, at as int) {
                assert(line@.subrange(at as int, at + marker@.len())[j as int] == marker@[j as int]);
            }
        }
        at = at + 1;
    }
    proof {
        assert forall|k: int| !occurs_at(line@, marker@, k) by {}
    }
    false
}

/// Reads the bytes of `s` from `lo` up to `hi` as a number: see
/// [`number_of`].
pub fn parse_number(s: &[u8], lo: usize, hi: usize) -> (n: Option<usize>)
    requires
        lo <= hi <= s@.len(),
    ensures
        n == number_of(s@.subrange(lo as int, hi as int)),
{
    let ghost field = s@.subrange(lo as int, hi as int);
    let start: usize = if lo < hi && s[lo] == 43 {
        lo + 1
    } else {
        lo
    };
    let ghost digits = s@.subrange(start as int, hi as int);
    proof {
        if lo < hi {
            assert(field[0] == s@[lo as int]);
        }
        assert(unsigned_part(field) == digits);
    }
    if start == hi {
        return None;
    }
    let mut value: usize = 0;
    let mut i: usize = start;
    while i < hi
        invariant
            lo <= start <= i <= hi <= s@.len(),
            start < hi,
            field == s@.subrange(lo as int, hi as int),
            unsigned_part(field) == digits,
            digits == s@.subrange(start as int, hi as int),
            all_digits(digits.take(i - start)),
            value == digits_value(digits.take(i - start)),
        decreases hi - i,
    {
        let b = s[i];
        proof {
            assert(digits.take(i - start + 1).drop_last() == digits.take(i - start));
            assert(digits.take(i - start + 1).last() == b);
        }
        if b < 48 || b > 57 {
            proof {
                assert(digits[i - start] == b);
            }
            return None;
        }
        let next = match value.checked_mul(10) {
            None => None,
            Some(tens) => tens.checked_add((b - 48) as usize),
        };
        match next {
            None => {
                proof {
                    if all_digits(digits) {
                        lemma_digits_grow(digits, (i - start + 1) as nat);
                    }
                }
                return None;
            },
            Some(v) => {
                value = v;
            },
        }
        proof {
            assert forall|k: int| 0 <= k < i - start + 1 implies 48 <= #[trigger] digits.take(
                i - start + 1,
            )[k] <= 57 by {
                if k < i - start {
                    assert(digits.take(i - start)[k] == digits[k]);
                }
            }
        }
        i = i + 1;
    }
    proof {
        assert(digits.take(hi - start) == digits);
    }
    Some(value)
}

/// The number that digits write is at least the number that any of their
/// beginnings writes.
pub proof fn lemma_digits_grow(s: Seq<u8>, n: nat)
    requires
        n <= s.len(),
        all_digits(s),
    ensures
        digits_value(s.take(n as int)) <= digits_value(s),
    decreases s.len(),
{
    if n < s.len() {
        assert(s.drop_last().take(n as int) == s.take(n as int));
        assert forall|i: int| 0 <= i < s.drop_last().len() implies 48
            <= #[trigger] s.drop_last()[i] <= 57 by {
            assert(s.drop_last()[i] == s[i]);
        }
        lemma_digits_grow(s.drop_last(), n);
        assert(s.last() == s[s.len() - 1]);
    } else {
        assert(s.take(n as int) == s);
    }
}

} // verus!
